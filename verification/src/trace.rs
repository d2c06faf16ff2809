//! The finalized trace: every cell a concrete field element, together with the
//! equality constraints that were registered while it was filled.

use vstd::prelude::*;
use crate::expression::{Column, ColumnKind, Selector};
use crate::field::Field;

verus! {

/// The address of one entry of the trace.
#[derive(Clone, Copy, Debug, PartialEq, Eq, Structural)]
pub struct Cell {
    pub column: Column,
    pub row: usize,
}

/// The requirement that two cells hold the same value.
#[derive(Clone, Copy, Debug, PartialEq, Eq, Structural)]
pub struct Equality {
    pub left: Cell,
    pub right: Cell,
}

/// The requirement that a cell holds the public input at `row` of the
/// instance column number `column`.
#[derive(Clone, Copy, Debug, PartialEq, Eq, Structural)]
pub struct InstanceEquality {
    pub cell: Cell,
    pub column: usize,
    pub row: usize,
}

/// The mathematical content of a trace: residues by column and row.
pub struct TraceView {
    /// The number of rows.
    pub rows: nat,
    /// The advice columns.
    pub advice: Seq<Seq<nat>>,
    /// The fixed columns.
    pub fixed: Seq<Seq<nat>>,
    /// The instance columns.
    pub instance: Seq<Seq<nat>>,
    /// For each selector, the rows on which it is enabled.
    pub selectors: Seq<Seq<bool>>,
    /// The equality constraints between cells, in the order of registration.
    pub copies: Seq<Equality>,
    /// The equality constraints with public inputs, in the order of
    /// registration.
    pub instance_copies: Seq<InstanceEquality>,
}

impl TraceView {
    /// Whether the trace has the column.
    pub open spec fn has_column(self, column: Column) -> bool {
        match column.kind {
            ColumnKind::Advice => column.index < self.advice.len(),
            ColumnKind::Instance => column.index < self.instance.len(),
            ColumnKind::Fixed => column.index < self.fixed.len(),
        }
    }

    /// Whether the trace has the cell.
    pub open spec fn has_cell(self, cell: Cell) -> bool {
        self.has_column(cell.column) && cell.row < self.rows
    }

    /// The residue in `column` at `row`.
    pub open spec fn cell(self, column: Column, row: int) -> nat {
        match column.kind {
            ColumnKind::Advice => self.advice[column.index as int][row],
            ColumnKind::Instance => self.instance[column.index as int][row],
            ColumnKind::Fixed => self.fixed[column.index as int][row],
        }
    }

    /// Whether `selector` is enabled at `row`.
    pub open spec fn selector_on(self, selector: Selector, row: int) -> bool {
        self.selectors[selector.index as int][row]
    }

    /// Every column spans all rows, there is at least one row, and every
    /// equality constraint names cells that the trace has.
    pub open spec fn wf(self) -> bool {
        &&& 0 < self.rows
        &&& forall|c: int| 0 <= c < self.advice.len() ==> (#[trigger] self.advice[c]).len() == self.rows
        &&& forall|c: int| 0 <= c < self.fixed.len() ==> (#[trigger] self.fixed[c]).len() == self.rows
        &&& forall|c: int|
            0 <= c < self.instance.len() ==> (#[trigger] self.instance[c]).len() == self.rows
        &&& forall|s: int|
            0 <= s < self.selectors.len() ==> (#[trigger] self.selectors[s]).len() == self.rows
        &&& forall|i: int|
            0 <= i < self.copies.len() ==> self.has_cell((#[trigger] self.copies[i]).left)
                && self.has_cell(self.copies[i].right)
        &&& forall|i: int|
            0 <= i < self.instance_copies.len() ==> {
                let e = #[trigger] self.instance_copies[i];
                self.has_cell(e.cell) && e.column < self.instance.len() && e.row < self.rows
            }
    }
}

/// The residues of a column of field elements.
pub open spec fn residues<F: Field>(column: Seq<F>) -> Seq<nat> {
    Seq::new(column.len(), |r: int| column[r].value())
}

/// The residues of a table of field elements, column by column.
pub open spec fn table<F: Field>(columns: Seq<Vec<F>>) -> Seq<Seq<nat>> {
    Seq::new(columns.len(), |c: int| residues(columns[c]@))
}

/// The contents of a table of flags, column by column.
pub open spec fn flags(columns: Seq<Vec<bool>>) -> Seq<Seq<bool>> {
    Seq::new(columns.len(), |c: int| columns[c]@)
}

/// A finalized trace.
#[derive(Debug)]
pub struct Trace<F> {
    rows: usize,
    advice: Vec<Vec<F>>,
    fixed: Vec<Vec<F>>,
    instance: Vec<Vec<F>>,
    selectors: Vec<Vec<bool>>,
    copies: Vec<Equality>,
    instance_copies: Vec<InstanceEquality>,
}

impl<F: Field> View for Trace<F> {
    type V = TraceView;

    closed spec fn view(&self) -> TraceView {
        TraceView {
            rows: self.rows as nat,
            advice: table(self.advice@),
            fixed: table(self.fixed@),
            instance: table(self.instance@),
            selectors: flags(self.selectors@),
            copies: self.copies@,
            instance_copies: self.instance_copies@,
        }
    }
}

impl<F: Field> Trace<F> {
    /// A trace made of its parts.
    pub(crate) fn from_parts(
        rows: usize,
        advice: Vec<Vec<F>>,
        fixed: Vec<Vec<F>>,
        instance: Vec<Vec<F>>,
        selectors: Vec<Vec<bool>>,
        copies: Vec<Equality>,
        instance_copies: Vec<InstanceEquality>,
    ) -> (r: Self)
        ensures
            r@ == (TraceView {
                rows: rows as nat,
                advice: table(advice@),
                fixed: table(fixed@),
                instance: table(instance@),
                selectors: flags(selectors@),
                copies: copies@,
                instance_copies: instance_copies@,
            }),
    {
        Trace { rows, advice, fixed, instance, selectors, copies, instance_copies }
    }

    /// Every cell of a trace holds a residue of the field.
    pub proof fn lemma_cells_are_residues(&self, column: Column, row: int)
        requires
            self@.wf(),
            self@.has_column(column),
            0 <= row < self@.rows,
        ensures
            self@.cell(column, row) < F::modulus(),
    {
        let c = column.index as int;
        match column.kind {
            ColumnKind::Advice => {
                assert(self@.advice[c].len() == self@.rows);
                self.advice@[c]@[row].lemma_residue();
            },
            ColumnKind::Instance => {
                assert(self@.instance[c].len() == self@.rows);
                self.instance@[c]@[row].lemma_residue();
            },
            ColumnKind::Fixed => {
                assert(self@.fixed[c].len() == self@.rows);
                self.fixed@[c]@[row].lemma_residue();
            },
        }
    }

    /// The number of rows.
    pub fn rows(&self) -> (n: usize)
        ensures
            n == self@.rows,
    {
        self.rows
    }

    /// Whether the trace has the column.
    pub fn has_column(&self, column: Column) -> (b: bool)
        ensures
            b == self@.has_column(column),
    {
        match column.kind {
            ColumnKind::Advice => column.index < self.advice.len(),
            ColumnKind::Instance => column.index < self.instance.len(),
            ColumnKind::Fixed => column.index < self.fixed.len(),
        }
    }

    /// Whether the trace has the selector.
    pub fn has_selector(&self, selector: Selector) -> (b: bool)
        ensures
            b == (selector.index < self@.selectors.len()),
    {
        selector.index < self.selectors.len()
    }

    /// The element in `column` at `row`.
    pub fn value(&self, column: Column, row: usize) -> (v: F)
        requires
            self@.wf(),
            self@.has_column(column),
            row < self@.rows,
        ensures
            v.value() == self@.cell(column, row as int),
    {
        let i = column.index;
        match column.kind {
            ColumnKind::Advice => {
                assert(self@.advice[i as int].len() == self@.rows);
                self.advice[i][row]
            },
            ColumnKind::Instance => {
                assert(self@.instance[i as int].len() == self@.rows);
                self.instance[i][row]
            },
            ColumnKind::Fixed => {
                assert(self@.fixed[i as int].len() == self@.rows);
                self.fixed[i][row]
            },
        }
    }

    /// Whether `selector` is enabled at `row`.
    pub fn selector_on(&self, selector: Selector, row: usize) -> (b: bool)
        requires
            self@.wf(),
            selector.index < self@.selectors.len(),
            row < self@.rows,
        ensures
            b == self@.selector_on(selector, row as int),
    {
        assert(self@.selectors[selector.index as int].len() == self@.rows);
        self.selectors[selector.index][row]
    }

    /// The equality constraints between cells.
    pub fn copies(&self) -> (r: &Vec<Equality>)
        ensures
            r@ == self@.copies,
    {
        &self.copies
    }

    /// The equality constraints with public inputs.
    pub fn instance_copies(&self) -> (r: &Vec<InstanceEquality>)
        ensures
            r@ == self@.instance_copies,
    {
        &self.instance_copies
    }
}

} // verus!
