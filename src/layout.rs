use vstd::prelude::*;

verus! {

/// `columns` is the smallest number whose square reaches `count`.
pub open spec fn is_grid_columns(count: int, columns: int) -> bool {
    &&& columns >= 1
    &&& columns * columns >= count
    &&& (columns - 1) * (columns - 1) < count
}

/// `rows` is the smallest number of rows of `columns` cells that holds `count` cells.
pub open spec fn is_grid_rows(count: int, columns: int, rows: int) -> bool {
    &&& rows >= 1
    &&& rows * columns >= count
    &&& (rows - 1) * columns < count
}

/// The grid that `count` cells are laid out in: `(columns, rows)`.
pub open spec fn is_grid(count: int, columns: int, rows: int) -> bool {
    if count == 0 {
        columns == 0 && rows == 0
    } else {
        is_grid_columns(count, columns) && is_grid_rows(count, columns, rows)
    }
}

/// Computes the grid for `count` cells: `columns = ceil(sqrt(count))` and the
/// fewest rows of that many columns that hold all cells.
pub fn compute_columns_rows(count: usize) -> (r: (usize, usize))
    ensures
        is_grid(count as int, r.0 as int, r.1 as int),
        count > 0 ==> r.0 <= count && r.1 <= count,
{
    if count == 0 {
        return (0, 0);
    }
    let mut columns: usize = 1;
    while (columns as u128) * (columns as u128) < count as u128
        invariant
            1 <= columns <= count,
            (columns - 1) * (columns - 1) < count,
            columns * columns <= u128::MAX,
        decreases count - columns,
    {
        proof {
            assert(columns * columns < count);
            assert(columns < count) by (nonlinear_arith)
                requires columns * columns < count, columns >= 1;
        }
        columns = columns + 1;
        proof {
            assert(columns * columns <= u128::MAX) by (nonlinear_arith)
                requires columns <= count, count <= usize::MAX;
        }
    }
    assert(columns * columns >= count);
    let mut rows: usize = count / columns;
    proof {
        assert(rows * columns <= count) by (nonlinear_arith)
            requires rows == count / columns, columns >= 1;
        assert(rows * columns > count - columns) by (nonlinear_arith)
            requires rows == count / columns, columns >= 1;
    }
    if rows * columns < count {
        proof {
            assert((rows + 1) * columns >= count) by (nonlinear_arith)
                requires rows * columns > count - columns;
            assert(rows < count) by (nonlinear_arith)
                requires rows * columns < count, columns >= 1;
        }
        rows = rows + 1;
    } else {
        proof {
            assert((rows - 1) * columns < count) by (nonlinear_arith)
                requires rows * columns <= count, columns >= 1;
            assert(rows >= 1) by (nonlinear_arith)
                requires rows * columns >= count, count >= 1;
            assert(rows <= count) by (nonlinear_arith)
                requires rows * columns <= count, columns >= 1;
        }
    }
    proof {
        assert((rows - 1) * columns < count);
        assert(rows >= 1);
    }
    (columns, rows)
}

} // verus!
