//! The layouter: places regions in the trace, one below the other, records
//! equality constraints, and finalizes the trace.

use vstd::prelude::*;
use crate::error::Error;
use crate::expression::{Column, ColumnKind, Selector};
use crate::field::Field;
use crate::grid::{
    dense_columns, flag_on, flag_overlay, grid_cell, grid_overlay, grid_settle, laid_over,
    pad_columns, settled,
};
use crate::region::{lookup, Region, RegionView};
use crate::system::{ConstraintSystem, SystemView};
use crate::trace::{table, Cell, Equality, InstanceEquality, Trace, TraceView};
use crate::value::Value;

verus! {

/// The number of rows of a trace of size parameter `k`: two to the `k`.
pub open spec fn row_count(k: nat) -> nat
    decreases k,
{
    if k == 0 {
        1
    } else {
        2 * row_count((k - 1) as nat)
    }
}

/// A larger size parameter gives at least as many rows.
pub proof fn lemma_row_count_grows(a: nat, b: nat)
    requires
        a <= b,
    ensures
        0 < row_count(a) <= row_count(b),
    decreases b,
{
    if a < b {
        lemma_row_count_grows(a, (b - 1) as nat);
    } else if a > 0 {
        lemma_row_count_grows((a - 1) as nat, (a - 1) as nat);
    }
}

/// The mathematical content of a layouter.
pub struct LayoutView {
    /// The number of rows of the trace.
    pub rows: nat,
    /// The number of advice columns of the circuit.
    pub num_advice: nat,
    /// The number of fixed columns of the circuit.
    pub num_fixed: nat,
    /// The number of instance columns of the circuit.
    pub num_instance: nat,
    /// The number of selectors of the circuit.
    pub num_selectors: nat,
    /// The columns whose cells equality constraints may name.
    pub equality: Set<Column>,
    /// The first row that no region occupies.
    pub next_row: nat,
    /// The cells assigned so far, by column and row of the trace; `None`
    /// stands for an unknown value.
    pub cells: Map<(Column, nat), Option<nat>>,
    /// The selectors enabled so far, with the row of the trace.
    pub enabled: Set<(Selector, nat)>,
    /// The equality constraints between cells, in the order of registration.
    pub copies: Seq<Equality>,
    /// The equality constraints with public inputs, in the order of
    /// registration.
    pub instance_copies: Seq<InstanceEquality>,
}

impl LayoutView {
    /// The layouter of an empty trace of `rows` rows for a circuit.
    pub open spec fn fresh<F>(system: SystemView<F>, rows: nat) -> LayoutView {
        LayoutView {
            rows,
            num_advice: system.num_advice,
            num_fixed: system.num_fixed,
            num_instance: system.num_instance,
            num_selectors: system.num_selectors,
            equality: system.equality,
            next_row: 0,
            cells: Map::empty(),
            enabled: Set::empty(),
            copies: Seq::empty(),
            instance_copies: Seq::empty(),
        }
    }

    /// The empty region that the layouter opens: it begins at the first free
    /// row and may span the rows that are left.
    pub open spec fn opens(self) -> RegionView {
        RegionView::empty(
            self.next_row,
            (self.rows - self.next_row) as nat,
            self.num_advice,
            self.num_fixed,
            self.num_selectors,
        )
    }

    /// Whether `region` was opened by the layouter as it is now.
    pub open spec fn admits(self, region: RegionView) -> bool {
        &&& region.start == self.next_row
        &&& region.limit == self.rows - self.next_row
        &&& region.num_advice == self.num_advice
        &&& region.num_fixed == self.num_fixed
        &&& region.num_selectors == self.num_selectors
    }

    /// The layouter after `region` was placed at the first free row: the
    /// region's cells and selectors appear `next_row` rows further down, and
    /// the next region begins below it.
    pub open spec fn placed(self, region: RegionView) -> LayoutView {
        LayoutView {
            next_row: self.next_row + region.rows,
            cells: Map::new(
                |k: (Column, nat)|
                    self.cells.contains_key(k) || lookup(region.cells, k.0, k.1 - self.next_row)
                        is Some,
                |k: (Column, nat)|
                    laid_over(
                        lookup(region.cells, k.0, k.1 - self.next_row),
                        lookup(self.cells, k.0, k.1 as int),
                    ).unwrap(),
            ),
            enabled: Set::new(
                |k: (Selector, nat)|
                    self.enabled.contains(k) || (k.1 >= self.next_row && region.enabled.contains(
                        (k.0, (k.1 - self.next_row) as nat),
                    )),
            ),
            ..self
        }
    }

    /// Whether the circuit has the column.
    pub open spec fn declares(self, column: Column) -> bool {
        match column.kind {
            ColumnKind::Advice => column.index < self.num_advice,
            ColumnKind::Instance => column.index < self.num_instance,
            ColumnKind::Fixed => column.index < self.num_fixed,
        }
    }

    /// Whether the trace has the cell.
    pub open spec fn has_cell(self, cell: Cell) -> bool {
        self.declares(cell.column) && cell.row < self.rows
    }

    /// Whether the trace has the public input at `row` of `column`.
    pub open spec fn has_input(self, column: Column, row: usize) -> bool {
        column.kind == ColumnKind::Instance && column.index < self.num_instance && row < self.rows
    }

    /// The layouter after `left` and `right` were constrained to be equal.
    pub open spec fn with_copy(self, left: Cell, right: Cell) -> LayoutView {
        LayoutView { copies: self.copies.push(Equality { left, right }), ..self }
    }

    /// The layouter after `cell` was constrained to equal the public input at
    /// `row` of `column`.
    pub open spec fn with_instance_copy(self, cell: Cell, column: Column, row: usize) -> LayoutView {
        LayoutView {
            instance_copies: self.instance_copies.push(
                InstanceEquality { cell, column: column.index, row },
            ),
            ..self
        }
    }

    /// What placing `region` comes to: the new layout, or the error.
    pub open spec fn try_place(self, region: RegionView) -> Result<LayoutView, Error> {
        if self.admits(region) {
            Ok(self.placed(region))
        } else {
            Err(Error::AssignmentError)
        }
    }

    /// What constraining `left` and `right` to be equal comes to: the new
    /// layout, or the error.
    pub open spec fn try_constrain_equal(self, left: Cell, right: Cell) -> Result<LayoutView, Error> {
        if !(self.has_cell(left) && self.has_cell(right)) {
            Err(Error::AssignmentError)
        } else if !(self.equality.contains(left.column) && self.equality.contains(right.column)) {
            Err(Error::EqualityError)
        } else {
            Ok(self.with_copy(left, right))
        }
    }

    /// What constraining `cell` to equal the public input at `row` of
    /// `column` comes to: the new layout, or the error.
    pub open spec fn try_constrain_instance(self, cell: Cell, column: Column, row: usize) -> Result<
        LayoutView,
        Error,
    > {
        if !(self.has_cell(cell) && self.has_input(column, row)) {
            Err(Error::AssignmentError)
        } else if !(self.equality.contains(cell.column) && self.equality.contains(column)) {
            Err(Error::EqualityError)
        } else {
            Ok(self.with_instance_copy(cell, column, row))
        }
    }

    /// The residue that the cell in `column` at `row` settles to.
    pub open spec fn residue(self, column: Column, row: int) -> nat {
        settled(lookup(self.cells, column, row))
    }

    /// The public input at `row` of instance column `c`: what was supplied,
    /// zero beyond it.
    pub open spec fn input(instance: Seq<Seq<nat>>, c: int, row: int) -> nat {
        if row < instance[c].len() {
            instance[c][row]
        } else {
            0
        }
    }

    /// Whether the trace can be finalized with the public inputs `instance`:
    /// no assigned cell is unknown, there is one list of inputs for each
    /// instance column, and none is longer than the trace.
    pub open spec fn finalizable(self, instance: Seq<Seq<nat>>) -> bool {
        &&& forall|k: (Column, nat)| #[trigger] self.cells.contains_key(k) ==> self.cells[k] is Some
        &&& instance.len() == self.num_instance
        &&& forall|c: int| 0 <= c < instance.len() ==> (#[trigger] instance[c]).len() <= self.rows
    }

    /// The finalized trace: every cell the residue it settles to, every
    /// instance column the public inputs followed by zeros.
    pub open spec fn finalized(self, instance: Seq<Seq<nat>>) -> TraceView {
        TraceView {
            rows: self.rows,
            advice: Seq::new(
                self.num_advice,
                |c: int|
                    Seq::new(
                        self.rows,
                        |row: int|
                            self.residue(Column { kind: ColumnKind::Advice, index: c as usize }, row),
                    ),
            ),
            fixed: Seq::new(
                self.num_fixed,
                |c: int|
                    Seq::new(
                        self.rows,
                        |row: int|
                            self.residue(Column { kind: ColumnKind::Fixed, index: c as usize }, row),
                    ),
            ),
            instance: Seq::new(
                self.num_instance,
                |c: int| Seq::new(self.rows, |row: int| Self::input(instance, c, row)),
            ),
            selectors: Seq::new(
                self.num_selectors,
                |s: int|
                    Seq::new(
                        self.rows,
                        |row: int| self.enabled.contains((Selector { index: s as usize }, row as nat)),
                    ),
            ),
            copies: self.copies,
            instance_copies: self.instance_copies,
        }
    }

    /// The trace has rows, regions lie within it, every assignment lies in a
    /// region and in a declared column, and every equality constraint names
    /// cells that the trace has, in columns with equality enabled.
    pub open spec fn wf(self) -> bool {
        &&& 0 < self.rows
        &&& self.next_row <= self.rows
        &&& forall|k: (Column, nat)| #[trigger]
            self.cells.contains_key(k) ==> k.0.kind != ColumnKind::Instance && self.declares(k.0)
                && k.1 < self.next_row
        &&& forall|k: (Selector, nat)| #[trigger]
            self.enabled.contains(k) ==> k.0.index < self.num_selectors && k.1 < self.next_row
        &&& forall|i: int|
            0 <= i < self.copies.len() ==> {
                let e = #[trigger] self.copies[i];
                &&& self.has_cell(e.left)
                &&& self.has_cell(e.right)
                &&& self.equality.contains(e.left.column)
                &&& self.equality.contains(e.right.column)
            }
        &&& forall|i: int|
            0 <= i < self.instance_copies.len() ==> {
                let e = #[trigger] self.instance_copies[i];
                &&& self.has_cell(e.cell)
                &&& e.column < self.num_instance
                &&& e.row < self.rows
                &&& self.equality.contains(e.cell.column)
                &&& self.equality.contains(Column { kind: ColumnKind::Instance, index: e.column })
            }
    }
}

/// Regions do not overlap: a region is placed below everything that was
/// placed before it, so no cell that was assigned changes, no selector that
/// was enabled is disabled, and all that the region adds lies on its own rows.
pub proof fn lemma_regions_disjoint(layout: LayoutView, region: RegionView)
    requires
        layout.wf(),
        region.wf(),
        layout.admits(region),
    ensures
        layout.placed(region).wf(),
        forall|k: (Column, nat)| #[trigger]
            layout.cells.contains_key(k) ==> layout.placed(region).cells.contains_key(k)
                && layout.placed(region).cells[k] == layout.cells[k],
        forall|k: (Selector, nat)| #[trigger]
            layout.enabled.contains(k) ==> layout.placed(region).enabled.contains(k),
        forall|k: (Column, nat)| #[trigger]
            layout.placed(region).cells.contains_key(k) && !layout.cells.contains_key(k)
                ==> layout.next_row <= k.1 < layout.next_row + region.rows,
        forall|k: (Selector, nat)| #[trigger]
            layout.placed(region).enabled.contains(k) && !layout.enabled.contains(k)
                ==> layout.next_row <= k.1 < layout.next_row + region.rows,
{
    let after = layout.placed(region);
    assert forall|k: (Column, nat)| #[trigger] after.cells.contains_key(k) implies k.0.kind
        != ColumnKind::Instance && after.declares(k.0) && k.1 < after.next_row by {
        if !layout.cells.contains_key(k) {
            assert(region.cells.contains_key((k.0, (k.1 - layout.next_row) as nat)));
        }
    }
    assert forall|k: (Selector, nat)| #[trigger] after.enabled.contains(k) implies k.0.index
        < after.num_selectors && k.1 < after.next_row by {
        if !layout.enabled.contains(k) {
            assert(region.enabled.contains((k.0, (k.1 - layout.next_row) as nat)));
        }
    }
    assert forall|k: (Column, nat)| #[trigger] layout.cells.contains_key(k) implies after.cells[k]
        == layout.cells[k] by {
        if k.1 >= layout.next_row {
            assert(!region.cells.contains_key((k.0, (k.1 - layout.next_row) as nat)));
        }
    }
    assert forall|k: (Column, nat)| #[trigger]
        after.cells.contains_key(k) && !layout.cells.contains_key(k) implies layout.next_row <= k.1
        < layout.next_row + region.rows by {
        assert(region.cells.contains_key((k.0, (k.1 - layout.next_row) as nat)));
    }
    assert forall|k: (Selector, nat)| #[trigger]
        after.enabled.contains(k) && !layout.enabled.contains(k) implies layout.next_row <= k.1
        < layout.next_row + region.rows by {
        assert(region.enabled.contains((k.0, (k.1 - layout.next_row) as nat)));
    }
}

/// The workspace in which a circuit lays out its trace.
pub struct Layouter<'a, F> {
    system: &'a ConstraintSystem<F>,
    rows: usize,
    advice: Vec<Vec<Option<Value<F>>>>,
    fixed: Vec<Vec<Option<Value<F>>>>,
    selectors: Vec<Vec<bool>>,
    next_row: usize,
    copies: Vec<Equality>,
    instance_copies: Vec<InstanceEquality>,
}

impl<'a, F: Field> View for Layouter<'a, F> {
    type V = LayoutView;

    closed spec fn view(&self) -> LayoutView {
        LayoutView {
            rows: self.rows as nat,
            num_advice: self.system@.num_advice,
            num_fixed: self.system@.num_fixed,
            num_instance: self.system@.num_instance,
            num_selectors: self.system@.num_selectors,
            equality: self.system@.equality,
            next_row: self.next_row as nat,
            cells: Map::new(
                |k: (Column, nat)| self.state(k.0, k.1 as int) is Some,
                |k: (Column, nat)| self.state(k.0, k.1 as int).unwrap(),
            ),
            enabled: Set::new(
                |k: (Selector, nat)| flag_on(self.selectors@, k.0.index as int, k.1 as int),
            ),
            copies: self.copies@,
            instance_copies: self.instance_copies@,
        }
    }
}

impl<'a, F: Field> Layouter<'a, F> {
    /// The state of the cell in `column` at `row` of the trace.
    pub closed spec fn state(&self, column: Column, row: int) -> Option<Option<nat>> {
        match column.kind {
            ColumnKind::Advice => grid_cell(self.advice@, column.index as int, row),
            ColumnKind::Fixed => grid_cell(self.fixed@, column.index as int, row),
            ColumnKind::Instance => None,
        }
    }

    /// The constraint system that the layouter was made for.
    pub closed spec fn system(&self) -> SystemView<F> {
        self.system@
    }

    /// The layouter is consistent: its tables have the shape of the circuit
    /// and of the trace, and nothing lies below the last region.
    pub closed spec fn wf(&self) -> bool {
        &&& self@.wf()
        &&& self.advice@.len() == self.system@.num_advice
        &&& self.fixed@.len() == self.system@.num_fixed
        &&& self.selectors@.len() == self.system@.num_selectors
        &&& forall|c: int| 0 <= c < self.advice@.len() ==> (#[trigger] self.advice@[c])@.len() == self.rows
        &&& forall|c: int| 0 <= c < self.fixed@.len() ==> (#[trigger] self.fixed@[c])@.len() == self.rows
        &&& forall|c: int|
            0 <= c < self.selectors@.len() ==> (#[trigger] self.selectors@[c])@.len() == self.rows
    }

    /// What a consistent layouter holds is well formed.
    pub proof fn lemma_view_wf(&self)
        requires
            self.wf(),
        ensures
            self@.wf(),
            self@.num_advice == self.system().num_advice,
            self@.num_fixed == self.system().num_fixed,
            self@.num_instance == self.system().num_instance,
            self@.num_selectors == self.system().num_selectors,
            self@.equality == self.system().equality,
    {
    }

    /// A layouter for an empty trace of two to the `k` rows, unless the
    /// machine cannot address that many.
    pub fn new(system: &'a ConstraintSystem<F>, k: u32) -> (r: Result<Self, Error>)
        ensures
            match r {
                Ok(layouter) => {
                    &&& row_count(k as nat) <= usize::MAX
                    &&& layouter.wf()
                    &&& layouter.system() == system@
                    &&& layouter@ == LayoutView::fresh(system@, row_count(k as nat))
                },
                Err(e) => e == Error::AssignmentError && row_count(k as nat) > usize::MAX,
            },
    {
        let mut rows: usize = 1;
        let mut i: u32 = 0;
        while i < k
            invariant
                i <= k,
                rows == row_count(i as nat),
            decreases k - i,
        {
            if rows > usize::MAX / 2 {
                proof {
                    lemma_row_count_grows((i + 1) as nat, k as nat);
                }
                return Err(Error::AssignmentError);
            }
            rows = rows * 2;
            i = i + 1;
        }
        proof {
            lemma_row_count_grows(k as nat, k as nat);
        }
        let layouter = Layouter {
            system,
            rows,
            advice: dense_columns(system.num_advice_columns(), rows, None),
            fixed: dense_columns(system.num_fixed_columns(), rows, None),
            selectors: dense_columns(system.num_selectors(), rows, false),
            next_row: 0,
            copies: Vec::new(),
            instance_copies: Vec::new(),
        };
        proof {
            assert(layouter@.cells =~= Map::empty());
            assert(layouter@.enabled =~= Set::empty());
        }
        Ok(layouter)
    }

    /// The number of rows of the trace.
    pub fn rows(&self) -> (n: usize)
        ensures
            n == self@.rows,
    {
        self.rows
    }

    /// The first row that no region occupies.
    pub fn next_row(&self) -> (n: usize)
        ensures
            n == self@.next_row,
    {
        self.next_row
    }

    /// What the cell in `column` at `row` of the trace holds, if anything was
    /// assigned.
    pub fn peek(&self, column: Column, row: usize) -> (r: Option<Value<F>>)
        requires
            self.wf(),
        ensures
            match r {
                Some(v) => lookup(self@.cells, column, row as int) == Some(v@),
                None => lookup(self@.cells, column, row as int) is None,
            },
    {
        match column.kind {
            ColumnKind::Advice => {
                if column.index < self.advice.len() && row < self.rows {
                    self.advice[column.index][row]
                } else {
                    None
                }
            },
            ColumnKind::Fixed => {
                if column.index < self.fixed.len() && row < self.rows {
                    self.fixed[column.index][row]
                } else {
                    None
                }
            },
            ColumnKind::Instance => None,
        }
    }

    /// Whether `selector` is enabled at `row` of the trace.
    pub fn is_enabled(&self, selector: Selector, row: usize) -> (b: bool)
        requires
            self.wf(),
        ensures
            b == self@.enabled.contains((selector, row as nat)),
    {
        selector.index < self.selectors.len() && row < self.rows
            && self.selectors[selector.index][row]
    }

    /// The equality constraints between cells, in the order of registration.
    pub fn copies(&self) -> (r: &Vec<Equality>)
        ensures
            r@ == self@.copies,
    {
        &self.copies
    }

    /// The equality constraints with public inputs, in the order of
    /// registration.
    pub fn instance_copies(&self) -> (r: &Vec<InstanceEquality>)
        ensures
            r@ == self@.instance_copies,
    {
        &self.instance_copies
    }

    /// Opens an empty region at the first free row.
    pub fn region(&self, name: &'static str) -> (r: Region<F>)
        requires
            self.wf(),
        ensures
            r.wf(),
            r.label() == name,
            r@ == self@.opens(),
    {
        Region::open(
            name,
            self.next_row,
            self.rows - self.next_row,
            self.advice.len(),
            self.fixed.len(),
            self.selectors.len(),
        )
    }

    /// Places `region` in the trace, at the row at which it was opened.
    ///
    /// A region that was not opened by this layouter as it is now (another
    /// region was placed in between, or it belongs to another layouter) is an
    /// assignment error and leaves the layouter as it was.
    pub fn assign_region(&mut self, region: Region<F>) -> (r: Result<(), Error>)
        requires
            old(self).wf(),
            region.wf(),
        ensures
            final(self).wf(),
            final(self).system() == old(self).system(),
            match old(self)@.try_place(region@) {
                Ok(after) => r is Ok && final(self)@ == after,
                Err(e) => r is Err && r->Err_0 == e && final(self)@ == old(self)@,
            },
    {
        let start = self.next_row;
        if !region.opened_for(
            start,
            self.rows - start,
            self.advice.len(),
            self.fixed.len(),
            self.selectors.len(),
        ) {
            return Err(Error::AssignmentError);
        }
        proof {
            region.lemma_view_wf();
        }
        let advice_source = region.advice_grid();
        let fixed_source = region.fixed_grid();
        let selector_source = region.selector_grid();
        grid_overlay(&mut self.advice, advice_source, start);
        grid_overlay(&mut self.fixed, fixed_source, start);
        flag_overlay(&mut self.selectors, selector_source, start);
        self.next_row = start + region.rows();
        proof {
            let before = old(self)@;
            let after = before.placed(region@);
            assert forall|column: Column, row: int|
                self.state(column, row) == laid_over(
                    lookup(region@.cells, column, row - start),
                    old(self).state(column, row),
                ) by {
                let c = column.index as int;
                match column.kind {
                    ColumnKind::Advice => {
                        if c < self.advice@.len() {
                            assert(grid_cell(advice_source@, c, row - start) == lookup(
                                region@.cells,
                                Column { kind: ColumnKind::Advice, index: c as usize },
                                row - start,
                            ));
                        }
                    },
                    ColumnKind::Fixed => {
                        if c < self.fixed@.len() {
                            assert(grid_cell(fixed_source@, c, row - start) == lookup(
                                region@.cells,
                                Column { kind: ColumnKind::Fixed, index: c as usize },
                                row - start,
                            ));
                        }
                    },
                    ColumnKind::Instance => {},
                }
            }
            assert forall|k: (Column, nat)| #[trigger]
                self@.cells.contains_key(k) == after.cells.contains_key(k) by {
                assert(self.state(k.0, k.1 as int) == laid_over(
                    lookup(region@.cells, k.0, k.1 - start),
                    old(self).state(k.0, k.1 as int),
                ));
            }
            assert forall|k: (Column, nat)| #[trigger]
                self@.cells.contains_key(k) implies self@.cells[k] == after.cells[k] by {
                assert(self.state(k.0, k.1 as int) == laid_over(
                    lookup(region@.cells, k.0, k.1 - start),
                    old(self).state(k.0, k.1 as int),
                ));
            }
            assert(self@.cells =~= after.cells);
            assert forall|k: (Selector, nat)|
                self@.enabled.contains(k) == after.enabled.contains(k) by {
                let c = k.0.index as int;
                if c < self.selectors@.len() {
                    assert(flag_on(selector_source@, c, k.1 - start) == (0 <= k.1 - start
                        && region@.enabled.contains(
                        (Selector { index: c as usize }, (k.1 - start) as nat),
                    )));
                }
            }
            assert(self@.enabled =~= after.enabled);
            assert(self@ == after);
        }
        Ok(())
    }

    /// Whether the trace has the cell.
    pub fn has_cell(&self, cell: Cell) -> (b: bool)
        ensures
            b == self@.has_cell(cell),
    {
        self.system.declares(cell.column) && cell.row < self.rows
    }

    /// Requires `left` and `right` to hold the same value.
    ///
    /// A cell that the trace does not have is an assignment error; a cell in
    /// a column without equality enabled is an equality error. Either leaves
    /// the layouter as it was.
    pub fn constrain_equal(&mut self, left: Cell, right: Cell) -> (r: Result<(), Error>)
        requires
            old(self).wf(),
        ensures
            final(self).wf(),
            final(self).system() == old(self).system(),
            match old(self)@.try_constrain_equal(left, right) {
                Ok(after) => r is Ok && final(self)@ == after,
                Err(e) => r is Err && r->Err_0 == e && final(self)@ == old(self)@,
            },
    {
        if !self.has_cell(left) || !self.has_cell(right) {
            return Err(Error::AssignmentError);
        }
        if !self.system.equality_enabled(left.column) || !self.system.equality_enabled(
            right.column,
        ) {
            return Err(Error::EqualityError);
        }
        self.copies.push(Equality { left, right });
        proof {
            assert(self@.cells =~= old(self)@.cells);
            assert(self@.enabled =~= old(self)@.enabled);
        }
        Ok(())
    }

    /// Requires `cell` to hold the public input at `row` of the instance
    /// column `column`.
    ///
    /// A cell or an input that the trace does not have is an assignment
    /// error; a column without equality enabled, the cell's or the instance
    /// column, is an equality error. Either leaves the layouter as it was.
    pub fn constrain_instance(&mut self, cell: Cell, column: Column, row: usize) -> (r: Result<
        (),
        Error,
    >)
        requires
            old(self).wf(),
        ensures
            final(self).wf(),
            final(self).system() == old(self).system(),
            match old(self)@.try_constrain_instance(cell, column, row) {
                Ok(after) => r is Ok && final(self)@ == after,
                Err(e) => r is Err && r->Err_0 == e && final(self)@ == old(self)@,
            },
    {
        let is_input = match column.kind {
            ColumnKind::Instance => self.system.declares(column) && row < self.rows,
            _ => false,
        };
        if !self.has_cell(cell) || !is_input {
            return Err(Error::AssignmentError);
        }
        if !self.system.equality_enabled(cell.column) || !self.system.equality_enabled(column) {
            return Err(Error::EqualityError);
        }
        self.instance_copies.push(InstanceEquality { cell, column: column.index, row });
        proof {
            assert(self@.cells =~= old(self)@.cells);
            assert(self@.enabled =~= old(self)@.enabled);
        }
        Ok(())
    }

    /// Finalizes the trace with the public inputs `instance`, one list for
    /// each instance column.
    ///
    /// Cells that were never assigned hold zero, and each instance column
    /// holds its inputs followed by zeros. An assigned cell that is still
    /// unknown, a number of lists other than the number of instance columns,
    /// or a list longer than the trace, is an assignment error.
    pub fn finish(self, instance: &Vec<Vec<F>>) -> (r: Result<Trace<F>, Error>)
        requires
            self.wf(),
        ensures
            match r {
                Ok(trace) => {
                    &&& self@.finalizable(table(instance@))
                    &&& trace@ == self@.finalized(table(instance@))
                    &&& trace@.wf()
                },
                Err(e) => e == Error::AssignmentError && !self@.finalizable(table(instance@)),
            },
    {
        let ghost inputs = table(instance@);
        let advice = match grid_settle(&self.advice, self.rows) {
            Some(t) => t,
            None => {
                proof {
                    let (c, row) = choose|c: int, row: int| #[trigger]
                        grid_cell(self.advice@, c, row) == Some(None::<nat>);
                    let k = (Column { kind: ColumnKind::Advice, index: c as usize }, row as nat);
                    assert(self@.cells.contains_key(k) && self@.cells[k] is None);
                }
                return Err(Error::AssignmentError);
            },
        };
        let fixed = match grid_settle(&self.fixed, self.rows) {
            Some(t) => t,
            None => {
                proof {
                    let (c, row) = choose|c: int, row: int| #[trigger]
                        grid_cell(self.fixed@, c, row) == Some(None::<nat>);
                    let k = (Column { kind: ColumnKind::Fixed, index: c as usize }, row as nat);
                    assert(self@.cells.contains_key(k) && self@.cells[k] is None);
                }
                return Err(Error::AssignmentError);
            },
        };
        if instance.len() != self.system.num_instance_columns() {
            return Err(Error::AssignmentError);
        }
        let public = match pad_columns(instance, self.rows) {
            Some(t) => t,
            None => {
                proof {
                    let c = choose|c: int|
                        0 <= c < instance@.len() && (#[trigger] instance@[c])@.len() > self.rows;
                    assert(inputs[c].len() > self.rows);
                }
                return Err(Error::AssignmentError);
            },
        };
        proof {
            assert forall|c: int| 0 <= c < inputs.len() implies (#[trigger] inputs[c]).len()
                <= self.rows by {
                assert(instance@[c]@.len() <= self.rows);
            }
            assert forall|k: (Column, nat)| #[trigger]
                self@.cells.contains_key(k) implies self@.cells[k] is Some by {
                match k.0.kind {
                    ColumnKind::Advice => {
                        assert(grid_cell(self.advice@, k.0.index as int, k.1 as int) != Some(
                            None::<nat>,
                        ));
                    },
                    ColumnKind::Fixed => {
                        assert(grid_cell(self.fixed@, k.0.index as int, k.1 as int) != Some(
                            None::<nat>,
                        ));
                    },
                    ColumnKind::Instance => {},
                }
            }
        }
        let selector_count = self.selectors.len();
        let ghost view = self@;
        let ghost advice_cells = self.advice@;
        let ghost fixed_cells = self.fixed@;
        let ghost flags = self.selectors@;
        let trace = Trace::from_parts(
            self.rows,
            advice,
            fixed,
            public,
            self.selectors,
            self.copies,
            self.instance_copies,
        );
        proof {
            let expected = view.finalized(inputs);
            assert(trace@.advice =~~= expected.advice) by {
                assert forall|c: int, row: int|
                    0 <= c < view.num_advice && 0 <= row < view.rows implies
                    #[trigger] trace@.advice[c][row] == expected.advice[c][row] by {
                    assert(advice@[c]@[row].value() == settled(grid_cell(advice_cells, c, row)));
                }
            }
            assert(trace@.fixed =~~= expected.fixed) by {
                assert forall|c: int, row: int|
                    0 <= c < view.num_fixed && 0 <= row < view.rows implies
                    #[trigger] trace@.fixed[c][row] == expected.fixed[c][row] by {
                    assert(fixed@[c]@[row].value() == settled(grid_cell(fixed_cells, c, row)));
                }
            }
            assert(trace@.instance =~~= expected.instance) by {
                assert forall|c: int, row: int|
                    0 <= c < view.num_instance && 0 <= row < view.rows implies
                    #[trigger] trace@.instance[c][row] == expected.instance[c][row] by {
                    assert(public@[c]@[row].value() == (if row < instance@[c]@.len() {
                        instance@[c]@[row].value()
                    } else {
                        0
                    }));
                }
            }
            assert(trace@.selectors =~~= expected.selectors) by {
                assert forall|s: int, row: int|
                    0 <= s < view.num_selectors && 0 <= row < view.rows implies
                    #[trigger] trace@.selectors[s][row] == expected.selectors[s][row] by {
                    assert(s < selector_count);
                    assert(flags[s]@.len() == view.rows);
                    assert(view.enabled.contains((Selector { index: s as usize }, row as nat))
                        == flag_on(flags, s, row));
                }
            }
            assert(trace@ == expected);
        }
        Ok(trace)
    }
}

} // verus!
