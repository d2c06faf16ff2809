//! Tables of cells that may or may not have been assigned.

use vstd::prelude::*;
use crate::field::Field;
use crate::value::Value;

verus! {

/// The state of the cell at `row` of column `c`: `None` where nothing was
/// assigned, else the value that was, known or not.
pub open spec fn grid_cell<F: Field>(grid: Seq<Vec<Option<Value<F>>>>, c: int, row: int) -> Option<
    Option<nat>,
> {
    if 0 <= c < grid.len() && 0 <= row < grid[c]@.len() {
        match grid[c]@[row] {
            Some(v) => Some(v@),
            None => None,
        }
    } else {
        None
    }
}

/// Assigns `v` to the cell at `row` of column `c`, growing the column as far
/// as needed.
pub(crate) fn grid_put<F: Field>(
    grid: &mut Vec<Vec<Option<Value<F>>>>,
    c: usize,
    row: usize,
    v: Value<F>,
)
    requires
        c < old(grid)@.len(),
        row < usize::MAX,
    ensures
        final(grid)@.len() == old(grid)@.len(),
        forall|c2: int|
            0 <= c2 < old(grid)@.len() && c2 != c ==> (#[trigger] final(grid)@[c2])@.len() == old(
                grid,
            )@[c2]@.len(),
        final(grid)@[c as int]@.len() == if old(grid)@[c as int]@.len() > row {
            old(grid)@[c as int]@.len()
        } else {
            (row + 1) as nat
        },
        forall|c2: int, r2: int|
            #[trigger] grid_cell(final(grid)@, c2, r2) == if c2 == c && r2 == row {
                Some(v@)
            } else {
                grid_cell(old(grid)@, c2, r2)
            },
{
    while grid[c].len() <= row
        invariant
            c < grid@.len(),
            grid@.len() == old(grid)@.len(),
            row < usize::MAX,
            forall|c2: int|
                0 <= c2 < old(grid)@.len() && c2 != c ==> (#[trigger] grid@[c2])@.len() == old(
                    grid,
                )@[c2]@.len(),
            old(grid)@[c as int]@.len() <= grid@[c as int]@.len(),
            grid@[c as int]@.len() <= row + 1 || grid@[c as int]@.len() == old(grid)@[c as int]@.len(),
            forall|c2: int, r2: int| #[trigger]
                grid_cell(grid@, c2, r2) == grid_cell(old(grid)@, c2, r2),
        decreases row + 1 - grid@[c as int]@.len(),
    {
        let ghost before = grid@;
        grid[c].push(None);
        assert(grid@.len() == before.len());
        assert(forall|c2: int| 0 <= c2 < before.len() && c2 != c ==> grid@[c2] == before[c2]);
        assert(grid@[c as int]@ == before[c as int]@.push(None));
        assert forall|c2: int, r2: int| #[trigger]
            grid_cell(grid@, c2, r2) == grid_cell(before, c2, r2) by {
            if c2 == c && 0 <= r2 < before[c as int]@.len() {
                assert(grid@[c as int]@[r2] == before[c as int]@[r2]);
            }
        }
    }
    let ghost before = grid@;
    grid[c][row] = Some(v);
    assert(grid@.len() == before.len());
    assert(forall|c2: int| 0 <= c2 < before.len() && c2 != c ==> grid@[c2] == before[c2]);
    assert(grid@[c as int]@ == before[c as int]@.update(row as int, Some(v)));
    assert forall|c2: int, r2: int| #[trigger]
        grid_cell(grid@, c2, r2) == if c2 == c && r2 == row {
            Some(v@)
        } else {
            grid_cell(before, c2, r2)
        } by {
        if c2 == c && 0 <= r2 < before[c as int]@.len() && r2 != row {
            assert(grid@[c as int]@[r2] == before[c as int]@[r2]);
        }
    }
}

/// Whether the flag at `row` of column `c` is set.
pub open spec fn flag_on(grid: Seq<Vec<bool>>, c: int, row: int) -> bool {
    0 <= c < grid.len() && 0 <= row < grid[c]@.len() && grid[c]@[row]
}

/// Sets the flag at `row` of column `c`, growing the column as far as needed.
pub(crate) fn flag_set(grid: &mut Vec<Vec<bool>>, c: usize, row: usize)
    requires
        c < old(grid)@.len(),
        row < usize::MAX,
    ensures
        final(grid)@.len() == old(grid)@.len(),
        forall|c2: int|
            0 <= c2 < old(grid)@.len() && c2 != c ==> (#[trigger] final(grid)@[c2])@.len() == old(
                grid,
            )@[c2]@.len(),
        final(grid)@[c as int]@.len() == if old(grid)@[c as int]@.len() > row {
            old(grid)@[c as int]@.len()
        } else {
            (row + 1) as nat
        },
        forall|c2: int, r2: int|
            #[trigger] flag_on(final(grid)@, c2, r2) == ((c2 == c && r2 == row) || flag_on(
                old(grid)@,
                c2,
                r2,
            )),
{
    while grid[c].len() <= row
        invariant
            c < grid@.len(),
            grid@.len() == old(grid)@.len(),
            row < usize::MAX,
            forall|c2: int|
                0 <= c2 < old(grid)@.len() && c2 != c ==> (#[trigger] grid@[c2])@.len() == old(
                    grid,
                )@[c2]@.len(),
            old(grid)@[c as int]@.len() <= grid@[c as int]@.len(),
            grid@[c as int]@.len() <= row + 1 || grid@[c as int]@.len() == old(grid)@[c as int]@.len(),
            forall|c2: int, r2: int| #[trigger] flag_on(grid@, c2, r2) == flag_on(old(grid)@, c2, r2),
        decreases row + 1 - grid@[c as int]@.len(),
    {
        let ghost before = grid@;
        grid[c].push(false);
        assert(grid@.len() == before.len());
        assert(forall|c2: int| 0 <= c2 < before.len() && c2 != c ==> grid@[c2] == before[c2]);
        assert(grid@[c as int]@ == before[c as int]@.push(false));
        assert forall|c2: int, r2: int| #[trigger]
            flag_on(grid@, c2, r2) == flag_on(before, c2, r2) by {
            if c2 == c && 0 <= r2 < before[c as int]@.len() {
                assert(grid@[c as int]@[r2] == before[c as int]@[r2]);
            }
        }
    }
    let ghost before = grid@;
    grid[c][row] = true;
    assert(grid@.len() == before.len());
    assert(forall|c2: int| 0 <= c2 < before.len() && c2 != c ==> grid@[c2] == before[c2]);
    assert(grid@[c as int]@ == before[c as int]@.update(row as int, true));
    assert forall|c2: int, r2: int| #[trigger]
        flag_on(grid@, c2, r2) == ((c2 == c && r2 == row) || flag_on(before, c2, r2)) by {
        if c2 == c && 0 <= r2 < before[c as int]@.len() && r2 != row {
            assert(grid@[c as int]@[r2] == before[c as int]@[r2]);
        }
    }
}

/// A table of `columns` columns without rows.
pub(crate) fn empty_columns<T>(columns: usize) -> (grid: Vec<Vec<T>>)
    ensures
        grid@.len() == columns,
        forall|c: int| 0 <= c < columns ==> (#[trigger] grid@[c])@.len() == 0,
{
    let mut grid: Vec<Vec<T>> = Vec::new();
    let mut c: usize = 0;
    while c < columns
        invariant
            c <= columns,
            grid@.len() == c,
            forall|i: int| 0 <= i < c ==> (#[trigger] grid@[i])@.len() == 0,
        decreases columns - c,
    {
        grid.push(Vec::new());
        c = c + 1;
    }
    grid
}

/// A table of `columns` columns of `rows` rows, every entry `fill`.
pub(crate) fn dense_columns<T: Copy>(columns: usize, rows: usize, fill: T) -> (grid: Vec<Vec<T>>)
    ensures
        grid@.len() == columns,
        forall|c: int| 0 <= c < columns ==> (#[trigger] grid@[c])@.len() == rows,
        forall|c: int, row: int| 0 <= c < columns && 0 <= row < rows ==> grid@[c]@[row] == fill,
{
    let mut grid: Vec<Vec<T>> = Vec::new();
    let mut c: usize = 0;
    while c < columns
        invariant
            c <= columns,
            grid@.len() == c,
            forall|i: int| 0 <= i < c ==> (#[trigger] grid@[i])@.len() == rows,
            forall|i: int, row: int| 0 <= i < c && 0 <= row < rows ==> grid@[i]@[row] == fill,
        decreases columns - c,
    {
        let mut column: Vec<T> = Vec::new();
        let mut row: usize = 0;
        while row < rows
            invariant
                row <= rows,
                column@.len() == row,
                forall|j: int| 0 <= j < row ==> column@[j] == fill,
            decreases rows - row,
        {
            column.push(fill);
            row = row + 1;
        }
        grid.push(column);
        c = c + 1;
    }
    grid
}

/// What a cell holds after `over` was laid on `under`: `over` where it holds
/// something, else `under`.
pub open spec fn laid_over(over: Option<Option<nat>>, under: Option<Option<nat>>) -> Option<
    Option<nat>,
> {
    if over is Some {
        over
    } else {
        under
    }
}

/// Copies every assigned cell of `source` into `target`, `start` rows further
/// down.
pub(crate) fn grid_overlay<F: Field>(
    target: &mut Vec<Vec<Option<Value<F>>>>,
    source: &Vec<Vec<Option<Value<F>>>>,
    start: usize,
)
    requires
        old(target)@.len() == source@.len(),
        forall|c: int|
            0 <= c < source@.len() ==> (#[trigger] source@[c])@.len() + start <= old(
                target,
            )@[c]@.len(),
    ensures
        final(target)@.len() == old(target)@.len(),
        forall|c: int|
            0 <= c < old(target)@.len() ==> (#[trigger] final(target)@[c])@.len() == old(
                target,
            )@[c]@.len(),
        forall|c: int, row: int|
            #[trigger] grid_cell(final(target)@, c, row) == laid_over(
                grid_cell(source@, c, row - start),
                grid_cell(old(target)@, c, row),
            ),
{
    let mut c: usize = 0;
    while c < source.len()
        invariant
            c <= source@.len(),
            target@.len() == source@.len(),
            target@.len() == old(target)@.len(),
            forall|i: int|
                0 <= i < target@.len() ==> (#[trigger] target@[i])@.len() == old(target)@[i]@.len(),
            forall|i: int|
                0 <= i < source@.len() ==> (#[trigger] source@[i])@.len() + start <= old(
                    target,
                )@[i]@.len(),
            forall|i: int, row: int|
                #[trigger] grid_cell(target@, i, row) == (if i < c {
                    laid_over(grid_cell(source@, i, row - start), grid_cell(old(target)@, i, row))
                } else {
                    grid_cell(old(target)@, i, row)
                }),
        decreases source@.len() - c,
    {
        let column = &source[c];
        let mut r: usize = 0;
        while r < column.len()
            invariant
                r <= column@.len(),
                c < source@.len(),
                *column == source@[c as int],
                target@.len() == source@.len(),
                target@.len() == old(target)@.len(),
                forall|i: int|
                    0 <= i < target@.len() ==> (#[trigger] target@[i])@.len() == old(
                        target,
                    )@[i]@.len(),
                forall|i: int|
                    0 <= i < source@.len() ==> (#[trigger] source@[i])@.len() + start <= old(
                        target,
                    )@[i]@.len(),
                forall|i: int, row: int|
                    #[trigger] grid_cell(target@, i, row) == (if i < c || (i == c && row - start
                        < r) {
                        laid_over(
                            grid_cell(source@, i, row - start),
                            grid_cell(old(target)@, i, row),
                        )
                    } else {
                        grid_cell(old(target)@, i, row)
                    }),
            decreases column@.len() - r,
        {
            assert(source@[c as int]@.len() + start <= old(target)@[c as int]@.len());
            assert(target@[c as int]@.len() == old(target)@[c as int]@.len());
            let depth = target[c].len();
            assert(start + r < depth);
            match column[r] {
                Some(v) => {
                    let ghost before = target@;
                    grid_put(target, c, start + r, v);
                    assert forall|i: int| 0 <= i < target@.len() implies (#[trigger] target@[i])@.len()
                        == old(target)@[i]@.len() by {
                        assert(before[i]@.len() == old(target)@[i]@.len());
                    }
                    assert forall|i: int, row: int|
                        #[trigger] grid_cell(target@, i, row) == (if i < c || (i == c && row - start
                            < r + 1) {
                            laid_over(
                                grid_cell(source@, i, row - start),
                                grid_cell(old(target)@, i, row),
                            )
                        } else {
                            grid_cell(old(target)@, i, row)
                        }) by {
                        assert(grid_cell(before, i, row) == (if i < c || (i == c && row - start
                            < r) {
                            laid_over(
                                grid_cell(source@, i, row - start),
                                grid_cell(old(target)@, i, row),
                            )
                        } else {
                            grid_cell(old(target)@, i, row)
                        }));
                    }
                },
                None => {
                    assert forall|i: int, row: int|
                        #[trigger] grid_cell(target@, i, row) == (if i < c || (i == c && row - start
                            < r + 1) {
                            laid_over(
                                grid_cell(source@, i, row - start),
                                grid_cell(old(target)@, i, row),
                            )
                        } else {
                            grid_cell(old(target)@, i, row)
                        }) by {}
                },
            }
            r = r + 1;
        }
        assert forall|i: int, row: int|
            #[trigger] grid_cell(target@, i, row) == (if i < c + 1 {
                laid_over(grid_cell(source@, i, row - start), grid_cell(old(target)@, i, row))
            } else {
                grid_cell(old(target)@, i, row)
            }) by {}
        c = c + 1;
    }
}

/// Sets in `target` every flag that is set in `source`, `start` rows further
/// down.
pub(crate) fn flag_overlay(target: &mut Vec<Vec<bool>>, source: &Vec<Vec<bool>>, start: usize)
    requires
        old(target)@.len() == source@.len(),
        forall|c: int|
            0 <= c < source@.len() ==> (#[trigger] source@[c])@.len() + start <= old(
                target,
            )@[c]@.len(),
    ensures
        final(target)@.len() == old(target)@.len(),
        forall|c: int|
            0 <= c < old(target)@.len() ==> (#[trigger] final(target)@[c])@.len() == old(
                target,
            )@[c]@.len(),
        forall|c: int, row: int|
            #[trigger] flag_on(final(target)@, c, row) == (flag_on(source@, c, row - start)
                || flag_on(old(target)@, c, row)),
{
    let mut c: usize = 0;
    while c < source.len()
        invariant
            c <= source@.len(),
            target@.len() == source@.len(),
            target@.len() == old(target)@.len(),
            forall|i: int|
                0 <= i < target@.len() ==> (#[trigger] target@[i])@.len() == old(target)@[i]@.len(),
            forall|i: int|
                0 <= i < source@.len() ==> (#[trigger] source@[i])@.len() + start <= old(
                    target,
                )@[i]@.len(),
            forall|i: int, row: int|
                #[trigger] flag_on(target@, i, row) == ((i < c && flag_on(source@, i, row - start))
                    || flag_on(old(target)@, i, row)),
        decreases source@.len() - c,
    {
        let column = &source[c];
        let mut r: usize = 0;
        while r < column.len()
            invariant
                r <= column@.len(),
                c < source@.len(),
                *column == source@[c as int],
                target@.len() == source@.len(),
                target@.len() == old(target)@.len(),
                forall|i: int|
                    0 <= i < target@.len() ==> (#[trigger] target@[i])@.len() == old(
                        target,
                    )@[i]@.len(),
                forall|i: int|
                    0 <= i < source@.len() ==> (#[trigger] source@[i])@.len() + start <= old(
                        target,
                    )@[i]@.len(),
                forall|i: int, row: int|
                    #[trigger] flag_on(target@, i, row) == (((i < c || (i == c && row - start < r))
                        && flag_on(source@, i, row - start)) || flag_on(old(target)@, i, row)),
            decreases column@.len() - r,
        {
            assert(source@[c as int]@.len() + start <= old(target)@[c as int]@.len());
            assert(target@[c as int]@.len() == old(target)@[c as int]@.len());
            let depth = target[c].len();
            assert(start + r < depth);
            if column[r] {
                let ghost before = target@;
                flag_set(target, c, start + r);
                assert forall|i: int| 0 <= i < target@.len() implies (#[trigger] target@[i])@.len()
                    == old(target)@[i]@.len() by {
                    assert(before[i]@.len() == old(target)@[i]@.len());
                }
                assert forall|i: int, row: int|
                    #[trigger] flag_on(target@, i, row) == (((i < c || (i == c && row - start < r
                        + 1)) && flag_on(source@, i, row - start)) || flag_on(
                        old(target)@,
                        i,
                        row,
                    )) by {
                    assert(flag_on(before, i, row) == (((i < c || (i == c && row - start < r))
                        && flag_on(source@, i, row - start)) || flag_on(old(target)@, i, row)));
                }
            }
            r = r + 1;
        }
        c = c + 1;
    }
}

/// The residue that a cell settles to when the trace is finalized: its value
/// where it has one, zero where nothing was assigned.
pub open spec fn settled(state: Option<Option<nat>>) -> nat {
    match state {
        Some(Some(v)) => v,
        _ => 0,
    }
}

/// The elements that the cells of a table settle to, unless one of them was
/// assigned an unknown value.
pub(crate) fn grid_settle<F: Field>(grid: &Vec<Vec<Option<Value<F>>>>, rows: usize) -> (r: Option<
    Vec<Vec<F>>,
>)
    requires
        forall|c: int| 0 <= c < grid@.len() ==> (#[trigger] grid@[c])@.len() == rows,
    ensures
        match r {
            Some(t) => {
                &&& forall|c: int, row: int| #[trigger] grid_cell(grid@, c, row) != Some(None::<nat>)
                &&& t@.len() == grid@.len()
                &&& forall|c: int| 0 <= c < t@.len() ==> (#[trigger] t@[c])@.len() == rows
                &&& forall|c: int, row: int|
                    0 <= c < t@.len() && 0 <= row < rows ==> (#[trigger] t@[c]@[row]).value()
                        == settled(grid_cell(grid@, c, row))
            },
            None => exists|c: int, row: int| #[trigger] grid_cell(grid@, c, row) == Some(None::<nat>),
        },
{
    let mut table: Vec<Vec<F>> = Vec::new();
    let mut c: usize = 0;
    while c < grid.len()
        invariant
            c <= grid@.len(),
            table@.len() == c,
            forall|i: int| 0 <= i < grid@.len() ==> (#[trigger] grid@[i])@.len() == rows,
            forall|i: int, row: int| i < c ==> #[trigger] grid_cell(grid@, i, row) != Some(None::<nat>),
            forall|i: int| 0 <= i < c ==> (#[trigger] table@[i])@.len() == rows,
            forall|i: int, row: int|
                0 <= i < c && 0 <= row < rows ==> (#[trigger] table@[i]@[row]).value() == settled(
                    grid_cell(grid@, i, row),
                ),
        decreases grid@.len() - c,
    {
        let source = &grid[c];
        let mut column: Vec<F> = Vec::new();
        let mut row: usize = 0;
        while row < rows
            invariant
                row <= rows,
                c < grid@.len(),
                *source == grid@[c as int],
                source@.len() == rows,
                column@.len() == row,
                forall|j: int| j < row ==> #[trigger] grid_cell(grid@, c as int, j) != Some(None::<nat>),
                forall|j: int|
                    0 <= j < row ==> (#[trigger] column@[j]).value() == settled(
                        grid_cell(grid@, c as int, j),
                    ),
            decreases rows - row,
        {
            match source[row] {
                Some(Value::Known(v)) => {
                    column.push(v);
                },
                Some(Value::Unknown) => {
                    assert(grid_cell(grid@, c as int, row as int) == Some(None::<nat>));
                    return None;
                },
                None => {
                    column.push(F::zero());
                },
            }
            row = row + 1;
        }
        table.push(column);
        c = c + 1;
    }
    Some(table)
}

/// The columns, each extended with zeros to `rows` rows, unless one of them is
/// longer than that.
pub(crate) fn pad_columns<F: Field>(columns: &Vec<Vec<F>>, rows: usize) -> (r: Option<Vec<Vec<F>>>)
    ensures
        match r {
            Some(t) => {
                &&& forall|c: int| 0 <= c < columns@.len() ==> (#[trigger] columns@[c])@.len() <= rows
                &&& t@.len() == columns@.len()
                &&& forall|c: int| 0 <= c < t@.len() ==> (#[trigger] t@[c])@.len() == rows
                &&& forall|c: int, row: int|
                    0 <= c < t@.len() && 0 <= row < rows ==> (#[trigger] t@[c]@[row]).value() == (
                    if row < columns@[c]@.len() {
                        columns@[c]@[row].value()
                    } else {
                        0
                    })
            },
            None => exists|c: int| 0 <= c < columns@.len() && (#[trigger] columns@[c])@.len() > rows,
        },
{
    let mut table: Vec<Vec<F>> = Vec::new();
    let mut c: usize = 0;
    while c < columns.len()
        invariant
            c <= columns@.len(),
            table@.len() == c,
            forall|i: int| 0 <= i < c ==> (#[trigger] columns@[i])@.len() <= rows,
            forall|i: int| 0 <= i < c ==> (#[trigger] table@[i])@.len() == rows,
            forall|i: int, row: int|
                0 <= i < c && 0 <= row < rows ==> (#[trigger] table@[i]@[row]).value() == (if row
                    < columns@[i]@.len() {
                    columns@[i]@[row].value()
                } else {
                    0
                }),
        decreases columns@.len() - c,
    {
        let source = &columns[c];
        if source.len() > rows {
            return None;
        }
        let mut column: Vec<F> = Vec::new();
        let mut row: usize = 0;
        while row < rows
            invariant
                row <= rows,
                source@.len() <= rows,
                column@.len() == row,
                forall|j: int|
                    0 <= j < row ==> (#[trigger] column@[j]).value() == (if j < source@.len() {
                        source@[j].value()
                    } else {
                        0
                    }),
            decreases rows - row,
        {
            if row < source.len() {
                column.push(source[row]);
            } else {
                column.push(F::zero());
            }
            row = row + 1;
        }
        table.push(column);
        c = c + 1;
    }
    Some(table)
}

} // verus!
