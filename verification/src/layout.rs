//! Layout strategies: how a cell's coordinates map to an offset in the flat buffer.

use vstd::prelude::*;
use vstd::arithmetic::div_mod::lemma_fundamental_div_mod;
use vstd::arithmetic::div_mod::lemma_fundamental_div_mod_converse;
use vstd::arithmetic::div_mod::lemma_mod_bound;
use vstd::arithmetic::div_mod::lemma_div_pos_is_pos;

verus! {

/// Whether `(row, col)` names a cell of a `rows` by `cols` matrix.
pub open spec fn in_bounds(row: int, col: int, rows: int, cols: int) -> bool {
    0 <= row < rows && 0 <= col < cols
}

/// The offset of cell `(row, col)` when rows are stored one after another.
pub open spec fn row_major_offset(row: int, col: int, rows: int, cols: int) -> int {
    row * cols + col
}

/// The offset of cell `(row, col)` when columns are stored one after another.
pub open spec fn col_major_offset(row: int, col: int, rows: int, cols: int) -> int {
    col * rows + row
}

/// `major * len + minor` stays below `count * len` while `major < count` and `minor < len`.
pub proof fn lemma_offset_range(major: int, minor: int, count: int, len: int)
    requires
        0 <= major < count,
        0 <= minor < len,
    ensures
        0 <= major * len + minor < count * len,
        major * len + len <= count * len,
        0 <= major * len,
{
    assert(0 <= major * len) by (nonlinear_arith)
        requires
            0 <= major,
            0 <= len,
    ;
    assert((major + 1) * len <= count * len) by (nonlinear_arith)
        requires
            major + 1 <= count,
            0 <= len,
    ;
    assert((major + 1) * len == major * len + len) by (nonlinear_arith);
}

/// `major * len + minor` determines `major` and `minor` while `minor < len`.
pub proof fn lemma_offset_unique(major: int, minor: int, len: int)
    requires
        0 <= minor < len,
    ensures
        (major * len + minor) / len == major,
        (major * len + minor) % len == minor,
{
    assert(major * len == len * major) by (nonlinear_arith);
    lemma_fundamental_div_mod_converse(major * len + minor, len, major, minor);
}

/// A layout: a rule that gives every cell of a matrix its own place in the flat buffer.
pub trait Order {
    /// The place of cell `(row, col)` in the buffer of a `rows` by `cols` matrix.
    spec fn offset(row: int, col: int, rows: int, cols: int) -> int;

    /// The cell stored at place `idx`: the inverse of [`Order::offset`].
    spec fn cell_at(idx: int, rows: int, cols: int) -> (int, int);

    /// Every cell has a place inside the buffer, and the place leads back to the cell.
    proof fn lemma_offset_of_cell(row: int, col: int, rows: int, cols: int)
        requires
            in_bounds(row, col, rows, cols),
        ensures
            0 <= Self::offset(row, col, rows, cols) < rows * cols,
            Self::cell_at(Self::offset(row, col, rows, cols), rows, cols) == (row, col),
    ;

    /// Every place of the buffer holds a cell, and the cell leads back to the place.
    proof fn lemma_cell_of_offset(idx: int, rows: int, cols: int)
        requires
            0 < rows,
            0 < cols,
            0 <= idx < rows * cols,
        ensures
            in_bounds(Self::cell_at(idx, rows, cols).0, Self::cell_at(idx, rows, cols).1, rows, cols),
            Self::offset(Self::cell_at(idx, rows, cols).0, Self::cell_at(idx, rows, cols).1, rows, cols) == idx,
    ;

    /// Computes the place of cell `pos = (row, col)` in a matrix of `dims = (rows, cols)`.
    /// The coordinates are not held against the dimensions: that is left to the caller.
    /// All that is asked is that the place can be written as a `usize`.
    fn calc_index(pos: (usize, usize), dims: (usize, usize)) -> (idx: usize)
        requires
            0 <= Self::offset(pos.0 as int, pos.1 as int, dims.0 as int, dims.1 as int)
                <= usize::MAX,
        ensures
            idx == Self::offset(pos.0 as int, pos.1 as int, dims.0 as int, dims.1 as int),
    ;
}

/// Rows are stored one after another: consecutive places hold consecutive columns of a row.
pub struct RowMajor;

/// Columns are stored one after another: consecutive places hold consecutive rows of a column.
pub struct ColMajor;

impl Order for RowMajor {
    open spec fn offset(row: int, col: int, rows: int, cols: int) -> int {
        row_major_offset(row, col, rows, cols)
    }

    open spec fn cell_at(idx: int, rows: int, cols: int) -> (int, int) {
        (idx / cols, idx % cols)
    }

    proof fn lemma_offset_of_cell(row: int, col: int, rows: int, cols: int) {
        lemma_offset_range(row, col, rows, cols);
        lemma_offset_unique(row, col, cols);
    }

    proof fn lemma_cell_of_offset(idx: int, rows: int, cols: int) {
        lemma_fundamental_div_mod(idx, cols);
        lemma_mod_bound(idx, cols);
        lemma_div_pos_is_pos(idx, cols);
        let q = idx / cols;
        assert(q * cols == cols * q) by (nonlinear_arith);
        assert(q < rows) by (nonlinear_arith)
            requires
                q * cols <= idx,
                idx < rows * cols,
                0 < cols,
        ;
    }

    fn calc_index(pos: (usize, usize), dims: (usize, usize)) -> (idx: usize) {
        let (i, j) = pos;
        let (_, num_cols) = dims;
        assert(0 <= i * num_cols) by (nonlinear_arith);
        i * num_cols + j
    }
}

impl Order for ColMajor {
    open spec fn offset(row: int, col: int, rows: int, cols: int) -> int {
        col_major_offset(row, col, rows, cols)
    }

    open spec fn cell_at(idx: int, rows: int, cols: int) -> (int, int) {
        (idx % rows, idx / rows)
    }

    proof fn lemma_offset_of_cell(row: int, col: int, rows: int, cols: int) {
        lemma_offset_range(col, row, cols, rows);
        lemma_offset_unique(col, row, rows);
        assert(cols * rows == rows * cols) by (nonlinear_arith);
    }

    proof fn lemma_cell_of_offset(idx: int, rows: int, cols: int) {
        lemma_fundamental_div_mod(idx, rows);
        lemma_mod_bound(idx, rows);
        lemma_div_pos_is_pos(idx, rows);
        let q = idx / rows;
        assert(q * rows == rows * q) by (nonlinear_arith);
        assert(q < cols) by (nonlinear_arith)
            requires
                q * rows <= idx,
                idx < rows * cols,
                0 < rows,
        ;
    }

    fn calc_index(pos: (usize, usize), dims: (usize, usize)) -> (idx: usize) {
        let (i, j) = pos;
        let (num_rows, _) = dims;
        assert(0 <= j * num_rows) by (nonlinear_arith);
        j * num_rows + i
    }
}

} // verus!
