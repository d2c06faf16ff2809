//! Regions: the scratch areas in which a circuit assigns its witness.
//!
//! A region addresses its rows from zero. It is opened by a layouter, which
//! tells it the row of the trace at which it will be placed, so that the
//! cells it hands out carry their address in the trace.

use vstd::prelude::*;
use crate::error::Error;
use crate::expression::{Column, ColumnKind, Selector};
use crate::field::Field;
use crate::grid::{empty_columns, flag_on, flag_set, grid_cell, grid_put};
use crate::trace::Cell;
use crate::value::Value;

verus! {

/// The mathematical content of a region.
pub struct RegionView {
    /// The row of the trace at which the region begins.
    pub start: nat,
    /// The number of rows that the trace has left for the region.
    pub limit: nat,
    /// The number of advice columns of the circuit.
    pub num_advice: nat,
    /// The number of fixed columns of the circuit.
    pub num_fixed: nat,
    /// The number of selectors of the circuit.
    pub num_selectors: nat,
    /// The cells assigned so far, by column and row of the region; `None`
    /// stands for an unknown value.
    pub cells: Map<(Column, nat), Option<nat>>,
    /// The selectors enabled so far, with the row of the region.
    pub enabled: Set<(Selector, nat)>,
    /// The number of rows that the region spans.
    pub rows: nat,
}

impl RegionView {
    /// A region without assignments.
    pub open spec fn empty(start: nat, limit: nat, num_advice: nat, num_fixed: nat, num_selectors: nat)
        -> RegionView {
        RegionView {
            start,
            limit,
            num_advice,
            num_fixed,
            num_selectors,
            cells: Map::empty(),
            enabled: Set::empty(),
            rows: 0,
        }
    }

    /// Whether the region can hold a value in `column` at `row`: the column
    /// is a declared advice or fixed column and the trace has the row.
    pub open spec fn accepts(self, column: Column, row: nat) -> bool {
        &&& row < self.limit
        &&& match column.kind {
            ColumnKind::Advice => column.index < self.num_advice,
            ColumnKind::Fixed => column.index < self.num_fixed,
            ColumnKind::Instance => false,
        }
    }

    /// Whether assigning `value` would contradict what the cell holds: both
    /// are known, and they differ.
    pub open spec fn conflicts(self, column: Column, row: nat, value: Option<nat>) -> bool {
        &&& self.cells.contains_key((column, row))
        &&& self.cells[(column, row)] is Some
        &&& value is Some
        &&& self.cells[(column, row)] != value
    }

    /// The number of rows of a region that spans `rows` rows and row `row`.
    pub open spec fn spanning(rows: nat, row: nat) -> nat {
        if rows > row {
            rows
        } else {
            row + 1
        }
    }

    /// The region after `value` was assigned to `column` at `row`.
    pub open spec fn assigned(self, column: Column, row: nat, value: Option<nat>) -> RegionView {
        RegionView {
            cells: self.cells.insert((column, row), value),
            rows: Self::spanning(self.rows, row),
            ..self
        }
    }

    /// The region after `selector` was enabled at `row`.
    pub open spec fn switched_on(self, selector: Selector, row: nat) -> RegionView {
        RegionView {
            enabled: self.enabled.insert((selector, row)),
            rows: Self::spanning(self.rows, row),
            ..self
        }
    }

    /// What assigning `value` to the cell in `column`, a column of kind
    /// `kind`, at `row` comes to: the new region, or the error.
    pub open spec fn try_assign(
        self,
        kind: ColumnKind,
        column: Column,
        row: nat,
        value: Option<nat>,
    ) -> Result<RegionView, Error> {
        if !(column.kind == kind && self.accepts(column, row)) {
            Err(Error::AssignmentError)
        } else if self.conflicts(column, row, value) {
            Err(Error::AssignmentConflict)
        } else {
            Ok(self.assigned(column, row, value))
        }
    }

    /// What enabling `selector` at `row` comes to: the new region, or the
    /// error.
    pub open spec fn try_enable(self, selector: Selector, row: nat) -> Result<RegionView, Error> {
        if selector.index < self.num_selectors && row < self.limit {
            Ok(self.switched_on(selector, row))
        } else {
            Err(Error::AssignmentError)
        }
    }

    /// Every assignment lies within the rows that the region spans, in a
    /// column that the region accepts, and the region fits the trace.
    pub open spec fn wf(self) -> bool {
        &&& self.rows <= self.limit
        &&& forall|k: (Column, nat)| #[trigger]
            self.cells.contains_key(k) ==> self.accepts(k.0, k.1) && k.1 < self.rows
        &&& forall|k: (Selector, nat)| #[trigger]
            self.enabled.contains(k) ==> k.0.index < self.num_selectors && k.1 < self.rows
    }
}

/// What `cells` holds in `column` at `row`: `None` where nothing is assigned.
pub open spec fn lookup(cells: Map<(Column, nat), Option<nat>>, column: Column, row: int) -> Option<
    Option<nat>,
> {
    if 0 <= row && cells.contains_key((column, row as nat)) {
        Some(cells[(column, row as nat)])
    } else {
        None
    }
}

/// Assigning a known value to a cell that holds the same value is no
/// conflict and changes no cell; assigning a different known value is an
/// assignment conflict.
pub proof fn lemma_reassignment(
    region: RegionView,
    kind: ColumnKind,
    column: Column,
    row: nat,
    held: nat,
    given: nat,
)
    requires
        region.try_assign(kind, column, row, Some(held)) is Ok,
    ensures
        ({
            let after = region.try_assign(kind, column, row, Some(held))->Ok_0;
            &&& given == held ==> after.try_assign(kind, column, row, Some(given)) == Ok::<
                RegionView,
                Error,
            >(after)
            &&& given != held ==> after.try_assign(kind, column, row, Some(given)) == Err::<
                RegionView,
                Error,
            >(Error::AssignmentConflict)
        }),
{
    let after = region.try_assign(kind, column, row, Some(held))->Ok_0;
    if given == held {
        let again = after.assigned(column, row, Some(given));
        assert(again.cells =~= after.cells);
    }
}

/// A cell that was assigned, with the value it was given.
#[derive(Clone, Copy, Debug)]
pub struct AssignedCell<F> {
    cell: Cell,
    value: Value<F>,
}

impl<F: Field> AssignedCell<F> {
    /// The address of the cell in the trace.
    pub closed spec fn address(&self) -> Cell {
        self.cell
    }

    /// The value that the cell was given.
    pub closed spec fn content(&self) -> Value<F> {
        self.value
    }

    /// The address of the cell in the trace.
    pub fn cell(&self) -> (r: Cell)
        ensures
            r == self.address(),
    {
        self.cell
    }

    /// The value that the cell was given.
    pub fn value(&self) -> (r: Value<F>)
        ensures
            r == self.content(),
    {
        self.value
    }
}

/// A named scratch area of the trace.
#[derive(Debug)]
pub struct Region<F> {
    name: &'static str,
    start: usize,
    limit: usize,
    advice: Vec<Vec<Option<Value<F>>>>,
    fixed: Vec<Vec<Option<Value<F>>>>,
    selectors: Vec<Vec<bool>>,
    rows: usize,
}

impl<F: Field> View for Region<F> {
    type V = RegionView;

    closed spec fn view(&self) -> RegionView {
        RegionView {
            start: self.start as nat,
            limit: self.limit as nat,
            num_advice: self.advice@.len(),
            num_fixed: self.fixed@.len(),
            num_selectors: self.selectors@.len(),
            cells: Map::new(
                |k: (Column, nat)| self.state(k.0, k.1 as int) is Some,
                |k: (Column, nat)| self.state(k.0, k.1 as int).unwrap(),
            ),
            enabled: Set::new(
                |k: (Selector, nat)| flag_on(self.selectors@, k.0.index as int, k.1 as int),
            ),
            rows: self.rows as nat,
        }
    }
}

impl<F: Field> Region<F> {
    /// The state of the cell in `column` at `row` of the region.
    pub closed spec fn state(&self, column: Column, row: int) -> Option<Option<nat>> {
        match column.kind {
            ColumnKind::Advice => grid_cell(self.advice@, column.index as int, row),
            ColumnKind::Fixed => grid_cell(self.fixed@, column.index as int, row),
            ColumnKind::Instance => None,
        }
    }

    /// The name that the region was opened under.
    pub closed spec fn label(&self) -> &'static str {
        self.name
    }

    /// The region is consistent: no column is longer than the region, and the
    /// region ends within the trace.
    pub closed spec fn wf(&self) -> bool {
        &&& self.rows <= self.limit
        &&& self.start + self.limit <= usize::MAX
        &&& forall|c: int| 0 <= c < self.advice@.len() ==> (#[trigger] self.advice@[c])@.len() <= self.rows
        &&& forall|c: int| 0 <= c < self.fixed@.len() ==> (#[trigger] self.fixed@[c])@.len() <= self.rows
        &&& forall|c: int|
            0 <= c < self.selectors@.len() ==> (#[trigger] self.selectors@[c])@.len() <= self.rows
    }

    /// What a consistent region holds is well formed.
    pub proof fn lemma_view_wf(&self)
        requires
            self.wf(),
        ensures
            self@.wf(),
            self@.start + self@.limit <= usize::MAX,
    {
        assert forall|k: (Column, nat)| #[trigger] self@.cells.contains_key(k) implies self@.accepts(
            k.0,
            k.1,
        ) && k.1 < self@.rows by {
            match k.0.kind {
                ColumnKind::Advice => {
                    assert(self.advice@[k.0.index as int]@.len() <= self.rows);
                },
                ColumnKind::Fixed => {
                    assert(self.fixed@[k.0.index as int]@.len() <= self.rows);
                },
                ColumnKind::Instance => {},
            }
        }
        assert forall|k: (Selector, nat)| #[trigger] self@.enabled.contains(k) implies k.0.index
            < self@.num_selectors && k.1 < self@.rows by {
            assert(self.selectors@[k.0.index as int]@.len() <= self.rows);
        }
    }

    /// An empty region that begins at row `start` of a trace which has
    /// `limit` rows left.
    pub(crate) fn open(
        name: &'static str,
        start: usize,
        limit: usize,
        num_advice: usize,
        num_fixed: usize,
        num_selectors: usize,
    ) -> (r: Self)
        requires
            start + limit <= usize::MAX,
        ensures
            r.wf(),
            r.label() == name,
            r@ == RegionView::empty(
                start as nat,
                limit as nat,
                num_advice as nat,
                num_fixed as nat,
                num_selectors as nat,
            ),
    {
        let r = Region {
            name,
            start,
            limit,
            advice: empty_columns(num_advice),
            fixed: empty_columns(num_fixed),
            selectors: empty_columns(num_selectors),
            rows: 0,
        };
        assert(r@.cells =~= Map::empty());
        assert(r@.enabled =~= Set::empty());
        r
    }

    /// The name that the region was opened under.
    pub fn name(&self) -> (r: &'static str)
        ensures
            r == self.label(),
    {
        self.name
    }

    /// The number of rows that the region spans.
    pub fn rows(&self) -> (n: usize)
        ensures
            n == self@.rows,
    {
        self.rows
    }

    /// The row of the trace at which the region begins.
    pub fn start(&self) -> (n: usize)
        ensures
            n == self@.start,
    {
        self.start
    }

    /// What the cell in `column` at `row` holds, if anything was assigned.
    pub fn peek(&self, column: Column, row: usize) -> (r: Option<Value<F>>)
        ensures
            match r {
                Some(v) => self@.cells.contains_key((column, row as nat)) && self@.cells[(
                    column,
                    row as nat,
                )] == v@,
                None => !self@.cells.contains_key((column, row as nat)),
            },
    {
        match column.kind {
            ColumnKind::Advice => {
                if column.index < self.advice.len() && row < self.advice[column.index].len() {
                    self.advice[column.index][row]
                } else {
                    None
                }
            },
            ColumnKind::Fixed => {
                if column.index < self.fixed.len() && row < self.fixed[column.index].len() {
                    self.fixed[column.index][row]
                } else {
                    None
                }
            },
            ColumnKind::Instance => None,
        }
    }

    /// Whether the region can hold a value in `column` at `row`.
    pub fn accepts(&self, column: Column, row: usize) -> (b: bool)
        ensures
            b == self@.accepts(column, row as nat),
    {
        row < self.limit && match column.kind {
            ColumnKind::Advice => column.index < self.advice.len(),
            ColumnKind::Fixed => column.index < self.fixed.len(),
            ColumnKind::Instance => false,
        }
    }

    /// Assigns `value` to the cell in `column` at `row` of the region.
    fn assign(&mut self, column: Column, row: usize, value: Value<F>) -> (r: Result<
        AssignedCell<F>,
        Error,
    >)
        requires
            old(self).wf(),
        ensures
            final(self).wf(),
            final(self).label() == old(self).label(),
            match r {
                Ok(cell) => {
                    &&& old(self)@.accepts(column, row as nat)
                    &&& !old(self)@.conflicts(column, row as nat, value@)
                    &&& final(self)@ == old(self)@.assigned(column, row as nat, value@)
                    &&& cell.address() == (Cell { column, row: (old(self)@.start + row) as usize })
                    &&& cell.content() == value
                },
                Err(e) => {
                    &&& final(self)@ == old(self)@
                    &&& if old(self)@.accepts(column, row as nat) {
                        e == Error::AssignmentConflict && old(self)@.conflicts(
                            column,
                            row as nat,
                            value@,
                        )
                    } else {
                        e == Error::AssignmentError
                    }
                },
            },
    {
        if !self.accepts(column, row) {
            return Err(Error::AssignmentError);
        }
        match (self.peek(column, row), value) {
            (Some(Value::Known(held)), Value::Known(given)) => {
                if !held.is_equal(&given) {
                    return Err(Error::AssignmentConflict);
                }
            },
            _ => {},
        }
        match column.kind {
            ColumnKind::Advice => {
                grid_put(&mut self.advice, column.index, row, value);
            },
            _ => {
                grid_put(&mut self.fixed, column.index, row, value);
            },
        }
        if self.rows <= row {
            self.rows = row + 1;
        }
        proof {
            assert(self@.cells =~= old(self)@.cells.insert((column, row as nat), value@)) by {
                assert forall|k: (Column, nat)|
                    self.state(k.0, k.1 as int) == (if k == (column, row as nat) {
                        Some(value@)
                    } else {
                        old(self).state(k.0, k.1 as int)
                    }) by {}
            }
            assert(self@.enabled =~= old(self)@.enabled);
        }
        Ok(AssignedCell { cell: Cell { column, row: self.start + row }, value })
    }

    /// Assigns `value` to the advice cell in `column` at `row` of the region,
    /// and hands back the cell.
    ///
    /// A column that is no declared advice column, or a row that the trace
    /// does not have, is an assignment error. A known value for a cell that
    /// holds a different known value is an assignment conflict; the same
    /// value may be assigned again. On an error the region stays as it was.
    pub fn assign_advice(&mut self, column: Column, row: usize, value: Value<F>) -> (r: Result<
        AssignedCell<F>,
        Error,
    >)
        requires
            old(self).wf(),
        ensures
            final(self).wf(),
            final(self).label() == old(self).label(),
            match old(self)@.try_assign(ColumnKind::Advice, column, row as nat, value@) {
                Ok(after) => {
                    &&& r is Ok
                    &&& final(self)@ == after
                    &&& r.unwrap().address() == (Cell {
                        column,
                        row: (old(self)@.start + row) as usize,
                    })
                    &&& r.unwrap().content() == value
                },
                Err(e) => r is Err && r->Err_0 == e && final(self)@ == old(self)@,
            },
    {
        match column.kind {
            ColumnKind::Advice => self.assign(column, row, value),
            _ => Err(Error::AssignmentError),
        }
    }

    /// Assigns `value` to the fixed cell in `column` at `row` of the region,
    /// and hands back the cell. Errors are those of `assign_advice`, for a
    /// fixed column.
    pub fn assign_fixed(&mut self, column: Column, row: usize, value: Value<F>) -> (r: Result<
        AssignedCell<F>,
        Error,
    >)
        requires
            old(self).wf(),
        ensures
            final(self).wf(),
            final(self).label() == old(self).label(),
            match old(self)@.try_assign(ColumnKind::Fixed, column, row as nat, value@) {
                Ok(after) => {
                    &&& r is Ok
                    &&& final(self)@ == after
                    &&& r.unwrap().address() == (Cell {
                        column,
                        row: (old(self)@.start + row) as usize,
                    })
                    &&& r.unwrap().content() == value
                },
                Err(e) => r is Err && r->Err_0 == e && final(self)@ == old(self)@,
            },
    {
        match column.kind {
            ColumnKind::Fixed => self.assign(column, row, value),
            _ => Err(Error::AssignmentError),
        }
    }

    /// Enables `selector` at `row` of the region.
    pub(crate) fn switch_on(&mut self, selector: Selector, row: usize) -> (r: Result<(), Error>)
        requires
            old(self).wf(),
        ensures
            final(self).wf(),
            final(self).label() == old(self).label(),
            match r {
                Ok(_) => {
                    &&& selector.index < old(self)@.num_selectors
                    &&& row < old(self)@.limit
                    &&& final(self)@ == old(self)@.switched_on(selector, row as nat)
                },
                Err(e) => {
                    &&& e == Error::AssignmentError
                    &&& !(selector.index < old(self)@.num_selectors && row < old(self)@.limit)
                    &&& final(self)@ == old(self)@
                },
            },
    {
        if selector.index >= self.selectors.len() || row >= self.limit {
            return Err(Error::AssignmentError);
        }
        flag_set(&mut self.selectors, selector.index, row);
        if self.rows <= row {
            self.rows = row + 1;
        }
        proof {
            assert(self@.enabled =~= old(self)@.enabled.insert((selector, row as nat)));
            assert(self@.cells =~= old(self)@.cells);
        }
        Ok(())
    }

    /// Whether the region was opened at row `start` of a trace with `limit`
    /// rows left, for a circuit of this shape.
    pub(crate) fn opened_for(
        &self,
        start: usize,
        limit: usize,
        num_advice: usize,
        num_fixed: usize,
        num_selectors: usize,
    ) -> (b: bool)
        ensures
            b == (self@.start == start && self@.limit == limit && self@.num_advice == num_advice
                && self@.num_fixed == num_fixed && self@.num_selectors == num_selectors),
    {
        self.start == start && self.limit == limit && self.advice.len() == num_advice
            && self.fixed.len() == num_fixed && self.selectors.len() == num_selectors
    }

    /// The advice cells of the region, by column and row.
    pub(crate) fn advice_grid(&self) -> (r: &Vec<Vec<Option<Value<F>>>>)
        requires
            self.wf(),
        ensures
            r@.len() == self@.num_advice,
            forall|c: int| 0 <= c < r@.len() ==> (#[trigger] r@[c])@.len() <= self@.rows,
            forall|c: int, row: int|
                0 <= c < r@.len() ==> #[trigger] grid_cell(r@, c, row) == lookup(
                    self@.cells,
                    Column { kind: ColumnKind::Advice, index: c as usize },
                    row,
                ),
    {
        let _ = self.advice.len();
        &self.advice
    }

    /// The fixed cells of the region, by column and row.
    pub(crate) fn fixed_grid(&self) -> (r: &Vec<Vec<Option<Value<F>>>>)
        requires
            self.wf(),
        ensures
            r@.len() == self@.num_fixed,
            forall|c: int| 0 <= c < r@.len() ==> (#[trigger] r@[c])@.len() <= self@.rows,
            forall|c: int, row: int|
                0 <= c < r@.len() ==> #[trigger] grid_cell(r@, c, row) == lookup(
                    self@.cells,
                    Column { kind: ColumnKind::Fixed, index: c as usize },
                    row,
                ),
    {
        let _ = self.fixed.len();
        &self.fixed
    }

    /// The selectors of the region, by selector and row.
    pub(crate) fn selector_grid(&self) -> (r: &Vec<Vec<bool>>)
        requires
            self.wf(),
        ensures
            r@.len() == self@.num_selectors,
            forall|c: int| 0 <= c < r@.len() ==> (#[trigger] r@[c])@.len() <= self@.rows,
            forall|c: int, row: int|
                0 <= c < r@.len() ==> #[trigger] flag_on(r@, c, row) == (0 <= row
                    && self@.enabled.contains((Selector { index: c as usize }, row as nat))),
    {
        let _ = self.selectors.len();
        &self.selectors
    }
}

impl Selector {
    /// Enables the selector at `row` of `region`, so that the gates it
    /// governs are evaluated there.
    ///
    /// A selector that the circuit does not have, or a row that the trace
    /// does not have, is an assignment error and leaves the region as it was.
    pub fn enable<F: Field>(&self, region: &mut Region<F>, row: usize) -> (r: Result<(), Error>)
        requires
            old(region).wf(),
        ensures
            final(region).wf(),
            final(region).label() == old(region).label(),
            match old(region)@.try_enable(*self, row as nat) {
                Ok(after) => r is Ok && final(region)@ == after,
                Err(e) => r is Err && r->Err_0 == e && final(region)@ == old(region)@,
            },
    {
        region.switch_on(*self, row)
    }
}

} // verus!
