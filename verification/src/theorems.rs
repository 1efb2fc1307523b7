//! What holds of every layout and of every matrix, stated over the same spec functions
//! as the contracts of the operations, and proved.

use vstd::prelude::*;
use crate::ingest::reading_order;
use crate::layout::col_major_offset;
use crate::layout::in_bounds;
use crate::layout::lemma_offset_range;
use crate::layout::row_major_offset;
use crate::layout::ColMajor;
use crate::layout::Order;
use crate::layout::RowMajor;
use crate::matrix::Matrix;

verus! {

/// A layout maps the cells of a `rows` by `cols` matrix one to one onto the places
/// `0 .. rows * cols`: every cell has a place in that range, two cells never share a place,
/// and every place in the range is the place of a cell. This holds of row-major order,
/// `row * cols + col`, of column-major order, `col * rows + row`, and of every other layout.
pub proof fn lemma_layout_is_bijection<O: Order>(rows: nat, cols: nat)
    ensures
        forall|i: int, j: int|
            in_bounds(i, j, rows as int, cols as int) ==> 0 <= #[trigger] O::offset(
                i,
                j,
                rows as int,
                cols as int,
            ) < rows * cols,
        forall|i: int, j: int, k: int, l: int|
            in_bounds(i, j, rows as int, cols as int) && in_bounds(k, l, rows as int, cols as int)
                && #[trigger] O::offset(i, j, rows as int, cols as int) == #[trigger] O::offset(
                k,
                l,
                rows as int,
                cols as int,
            ) ==> i == k && j == l,
        forall|place: int|
            0 <= place < rows * cols ==> ({
                let cell = #[trigger] O::cell_at(place, rows as int, cols as int);
                in_bounds(cell.0, cell.1, rows as int, cols as int) && O::offset(
                    cell.0,
                    cell.1,
                    rows as int,
                    cols as int,
                ) == place
            }),
{
    let r = rows as int;
    let c = cols as int;
    assert forall|i: int, j: int| in_bounds(i, j, r, c) implies 0 <= #[trigger] O::offset(
        i,
        j,
        r,
        c,
    ) < rows * cols by {
        O::lemma_offset_of_cell(i, j, r, c);
    }
    assert forall|i: int, j: int, k: int, l: int|
        in_bounds(i, j, r, c) && in_bounds(k, l, r, c) && #[trigger] O::offset(i, j, r, c)
            == #[trigger] O::offset(k, l, r, c) implies i == k && j == l by {
        O::lemma_offset_of_cell(i, j, r, c);
        O::lemma_offset_of_cell(k, l, r, c);
    }
    assert forall|place: int| 0 <= place < rows * cols implies ({
        let cell = #[trigger] O::cell_at(place, r, c);
        in_bounds(cell.0, cell.1, r, c) && O::offset(cell.0, cell.1, r, c) == place
    }) by {
        assert(r > 0 && c > 0) by (nonlinear_arith)
            requires
                0 <= place < r * c,
                0 <= r,
                0 <= c,
        ;
        O::lemma_cell_of_offset(place, r, c);
    }
}

/// Column-major order is row-major order of the matrix turned over: the place of cell
/// `(row, col)` among `rows` by `cols` is the row-major place of cell `(col, row)` among
/// `cols` by `rows`. This holds of all coordinates, inside the matrix or not.
pub proof fn lemma_col_major_is_row_major_turned_over(row: int, col: int, rows: int, cols: int)
    ensures
        ColMajor::offset(row, col, rows, cols) == RowMajor::offset(col, row, cols, rows),
        ColMajor::offset(row, col, rows, cols) == col * rows + row,
        RowMajor::offset(row, col, rows, cols) == row * cols + col,
{
}

/// What stands at a place of the buffer stands in a cell of the matrix. So where the
/// buffer was filled with drawn values, of which one is not `value`, the matrix has a
/// cell that does not hold `value`.
pub proof fn lemma_other_value_shows_in_a_cell<T, O: Order>(m: Matrix<T, O>, place: int, value: T)
    requires
        m.wf(),
        0 <= place < m@.len(),
        m@[place] != value,
    ensures
        exists|row: int, col: int| #[trigger] m.has_cell(row, col) && m.cell(row, col) != value,
{
    O::lemma_cell_of_offset(place, m.rows() as int, m.cols() as int);
    let cell = O::cell_at(place, m.rows() as int, m.cols() as int);
    assert(m.has_cell(cell.0, cell.1) && m.cell(cell.0, cell.1) != value);
}

/// Two matrices of one layout and of the same dimensions that agree on every cell hold the
/// same buffer: what the cells hold leaves no place of the buffer open.
pub proof fn lemma_cells_determine_buffer<T, O: Order>(a: Matrix<T, O>, b: Matrix<T, O>)
    requires
        a.wf(),
        b.wf(),
        a.rows() == b.rows(),
        a.cols() == b.cols(),
        forall|row: int, col: int| #[trigger] a.has_cell(row, col) ==> a.cell(row, col) == b.cell(row, col),
    ensures
        a@ == b@,
{
    let rows = a.rows() as int;
    let cols = a.cols() as int;
    assert forall|place: int| 0 <= place < a@.len() implies a@[place] == b@[place] by {
        O::lemma_cell_of_offset(place, rows, cols);
        let cell = O::cell_at(place, rows, cols);
        assert(a.has_cell(cell.0, cell.1));
    }
    assert(a@ =~= b@);
}

/// In a row-major matrix cell `(row, col)` lies at place `row * cols + col` of the buffer.
pub proof fn lemma_row_major_cell<T>(m: Matrix<T, RowMajor>, row: int, col: int)
    requires
        m.wf(),
        m.has_cell(row, col),
    ensures
        0 <= row * m.cols() + col < m@.len(),
        m.cell(row, col) == m@[row * m.cols() + col],
{
    lemma_offset_range(row, col, m.rows() as int, m.cols() as int);
}

/// In a column-major matrix cell `(row, col)` lies at place `col * rows + row` of the buffer.
pub proof fn lemma_col_major_cell<T>(m: Matrix<T, ColMajor>, row: int, col: int)
    requires
        m.wf(),
        m.has_cell(row, col),
    ensures
        0 <= col * m.rows() + row < m@.len(),
        m.cell(row, col) == m@[col * m.rows() + row],
{
    lemma_offset_range(col, row, m.cols() as int, m.rows() as int);
    assert(m.cols() * m.rows() == m.rows() * m.cols()) by (nonlinear_arith);
}

/// Setting the diagonal leaves one result only.
pub proof fn lemma_diagonal_set_is_unique<T, O: Order>(
    before: Matrix<T, O>,
    a: Matrix<T, O>,
    b: Matrix<T, O>,
    value: T,
)
    requires
        before.wf(),
        Matrix::diagonal_set(before, a, value),
        Matrix::diagonal_set(before, b, value),
    ensures
        a@ == b@,
{
    assert forall|row: int, col: int| #[trigger] a.has_cell(row, col) implies a.cell(row, col)
        == b.cell(row, col) by {
        assert(before.has_cell(row, col));
    }
    lemma_cells_determine_buffer(a, b);
}

/// Setting the diagonal twice to one value gives what setting it once gives.
pub proof fn lemma_diagonal_set_is_idempotent<T, O: Order>(
    before: Matrix<T, O>,
    once: Matrix<T, O>,
    twice: Matrix<T, O>,
    value: T,
)
    requires
        before.wf(),
        Matrix::diagonal_set(before, once, value),
        Matrix::diagonal_set(once, twice, value),
    ensures
        twice@ == once@,
{
    assert forall|row: int, col: int| #[trigger] twice.has_cell(row, col) implies twice.cell(
        row,
        col,
    ) == once.cell(row, col) by {
        assert(before.has_cell(row, col));
        assert(once.has_cell(row, col));
    }
    lemma_cells_determine_buffer(twice, once);
}

/// A row-major matrix that holds records has them in its buffer in reading order.
pub proof fn lemma_row_major_holds_reading_order<T>(m: Matrix<T, RowMajor>, records: Seq<Seq<T>>)
    requires
        m.holds_records(records),
    ensures
        m@ == reading_order(records),
{
    let rows = m.rows() as int;
    let cols = m.cols() as int;
    assert forall|place: int| 0 <= place < m@.len() implies m@[place] == reading_order(
        records,
    )[place] by {
        RowMajor::lemma_cell_of_offset(place, rows, cols);
        assert(m.has_cell(place / cols, place % cols));
    }
    assert(m@ =~= reading_order(records));
}

/// A column-major matrix that holds records has in its buffer the transpose of what a
/// row-major matrix of the same records has: place `j * rows + i` of the one holds what
/// place `i * cols + j` of the other holds.
pub proof fn lemma_col_major_is_transpose_of_row_major<T>(
    by_rows: Matrix<T, RowMajor>,
    by_cols: Matrix<T, ColMajor>,
    records: Seq<Seq<T>>,
)
    requires
        by_rows.holds_records(records),
        by_cols.holds_records(records),
    ensures
        by_cols@.len() == by_rows@.len(),
        forall|i: int, j: int|
            in_bounds(i, j, records.len() as int, records[0].len() as int) ==> by_cols@[
                #[trigger] col_major_offset(i, j, records.len() as int, records[0].len() as int)
            ] == by_rows@[row_major_offset(i, j, records.len() as int, records[0].len() as int)],
{
    assert forall|i: int, j: int|
        in_bounds(i, j, records.len() as int, records[0].len() as int) implies by_cols@[
            #[trigger] col_major_offset(i, j, records.len() as int, records[0].len() as int)
        ] == by_rows@[row_major_offset(i, j, records.len() as int, records[0].len() as int)] by {
        assert(by_rows.has_cell(i, j));
        assert(by_cols.has_cell(i, j));
    }
}

} // verus!
