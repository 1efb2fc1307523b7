//! The matrix container: two dimensions, one flat buffer, and a layout that says which
//! place of the buffer holds which cell.

use vstd::prelude::*;
use std::marker::PhantomData;
use crate::error::MatrixError;
use crate::layout::Order;
use crate::layout::in_bounds;

verus! {

/// The number of rows and of columns of a matrix.
#[derive(Clone, Copy, Debug, PartialEq, Eq, Structural)]
pub struct Dimensions {
    pub rows: usize,
    pub cols: usize,
}

/// A matrix of `T` whose cells lie in one buffer, in the order that the layout `O` gives.
pub struct Matrix<T, O: Order> {
    num_rows: usize,
    num_cols: usize,
    data: Vec<T>,
    _order: PhantomData<O>,
}

impl<T, O: Order> View for Matrix<T, O> {
    type V = Seq<T>;

    /// The flat buffer, place by place.
    closed spec fn view(&self) -> Seq<T> {
        self.data@
    }
}

impl<T, O: Order> Matrix<T, O> {
    /// The number of rows.
    pub closed spec fn rows(&self) -> nat {
        self.num_rows as nat
    }

    /// The number of columns.
    pub closed spec fn cols(&self) -> nat {
        self.num_cols as nat
    }

    /// Both dimensions are positive and the buffer holds one element per cell.
    #[verifier::type_invariant]
    pub open spec fn wf(&self) -> bool {
        &&& self.rows() > 0
        &&& self.cols() > 0
        &&& self@.len() == self.rows() * self.cols()
    }

    /// Whether `(row, col)` names a cell of this matrix.
    pub open spec fn has_cell(&self, row: int, col: int) -> bool {
        in_bounds(row, col, self.rows() as int, self.cols() as int)
    }

    /// The place of cell `(row, col)` in the buffer.
    pub open spec fn place(&self, row: int, col: int) -> int {
        O::offset(row, col, self.rows() as int, self.cols() as int)
    }

    /// The element in cell `(row, col)`.
    pub open spec fn cell(&self, row: int, col: int) -> T {
        self@[self.place(row, col)]
    }

    /// Builds a matrix whose cells are filled, place by place, with what `producer` yields.
    pub fn from_fn<F: Fn() -> T>(num_rows: usize, num_cols: usize, producer: F) -> (made: Result<
        Self,
        MatrixError,
    >)
        requires
            num_rows * num_cols <= usize::MAX,
            call_requires(producer, ()),
        ensures
            made is Err <==> num_rows == 0 || num_cols == 0,
            made matches Err(e) ==> e == MatrixError::InvalidDimensions,
            made matches Ok(m) ==> m.wf() && m.rows() == num_rows && m.cols() == num_cols
                && forall|k: int| 0 <= k < m@.len() ==> call_ensures(producer, (), #[trigger] m@[k]),
    {
        if num_rows == 0 || num_cols == 0 {
            return Err(MatrixError::InvalidDimensions);
        }
        let len = num_rows * num_cols;
        let mut data: Vec<T> = Vec::new();
        let mut k: usize = 0;
        while k < len
            invariant
                k <= len,
                data@.len() == k,
                call_requires(producer, ()),
                forall|i: int| 0 <= i < k ==> call_ensures(producer, (), #[trigger] data@[i]),
            decreases len - k,
        {
            data.push(producer());
            k += 1;
        }
        Ok(Matrix { num_rows, num_cols, data, _order: PhantomData })
    }

    /// Builds a matrix whose cells all hold the default value of `T`.
    pub fn new(num_rows: usize, num_cols: usize) -> (made: Result<Self, MatrixError>) where
        T: Default,

        requires
            num_rows * num_cols <= usize::MAX,
        ensures
            made is Err <==> num_rows == 0 || num_cols == 0,
            made matches Err(e) ==> e == MatrixError::InvalidDimensions,
            made matches Ok(m) ==> m.wf() && m.rows() == num_rows && m.cols() == num_cols
                && forall|k: int| 0 <= k < m@.len() ==> call_ensures(T::default, (), #[trigger] m@[k]),
    {
        Self::from_fn(num_rows, num_cols, T::default)
    }

    /// Builds a matrix whose cells all hold the default value of `T`.
    pub fn default(num_rows: usize, num_cols: usize) -> (made: Result<Self, MatrixError>) where
        T: Default,

        requires
            num_rows * num_cols <= usize::MAX,
        ensures
            made is Err <==> num_rows == 0 || num_cols == 0,
            made matches Err(e) ==> e == MatrixError::InvalidDimensions,
            made matches Ok(m) ==> m.wf() && m.rows() == num_rows && m.cols() == num_cols
                && forall|k: int| 0 <= k < m@.len() ==> call_ensures(T::default, (), #[trigger] m@[k]),
    {
        Self::new(num_rows, num_cols)
    }

    /// Builds a matrix whose cells each hold one draw from `sampler`.
    pub fn random<F: Fn() -> T>(num_rows: usize, num_cols: usize, sampler: F) -> (made: Result<
        Self,
        MatrixError,
    >)
        requires
            num_rows * num_cols <= usize::MAX,
            call_requires(sampler, ()),
        ensures
            made is Err <==> num_rows == 0 || num_cols == 0,
            made matches Err(e) ==> e == MatrixError::InvalidDimensions,
            made matches Ok(m) ==> m.wf() && m.rows() == num_rows && m.cols() == num_cols
                && forall|k: int| 0 <= k < m@.len() ==> call_ensures(sampler, (), #[trigger] m@[k]),
    {
        Self::from_fn(num_rows, num_cols, sampler)
    }

    /// Builds a matrix whose cells all hold `value`.
    pub fn filled(num_rows: usize, num_cols: usize, value: T) -> (made: Result<Self, MatrixError>) where
        T: Copy,

        requires
            num_rows * num_cols <= usize::MAX,
        ensures
            made is Err <==> num_rows == 0 || num_cols == 0,
            made matches Err(e) ==> e == MatrixError::InvalidDimensions,
            made matches Ok(m) ==> m.wf() && m.rows() == num_rows && m.cols() == num_cols
                && forall|k: int| 0 <= k < m@.len() ==> #[trigger] m@[k] == value,
    {
        let copy = || -> (cell: T)
            ensures
                cell == value,
            { value };
        Self::from_fn(num_rows, num_cols, copy)
    }

    /// Builds a matrix over `buffer`, which already lies in the order of the layout `O`.
    pub fn from_flat_buffer(num_rows: usize, num_cols: usize, buffer: Vec<T>) -> (made: Result<
        Self,
        MatrixError,
    >)
        ensures
            made matches Err(e) ==> e == (if buffer@.len() != num_rows * num_cols {
                MatrixError::LengthMismatch
            } else {
                MatrixError::InvalidDimensions
            }),
            made is Err <==> buffer@.len() != num_rows * num_cols || num_rows == 0 || num_cols
                == 0,
            made matches Ok(m) ==> m.wf() && m.rows() == num_rows && m.cols() == num_cols && m@
                == buffer@,
    {
        let len = buffer.len();
        let fits = match num_rows.checked_mul(num_cols) {
            Some(cells) => len == cells,
            None => false,
        };
        if !fits {
            return Err(MatrixError::LengthMismatch);
        }
        if num_rows == 0 || num_cols == 0 {
            return Err(MatrixError::InvalidDimensions);
        }
        Ok(Matrix { num_rows, num_cols, data: buffer, _order: PhantomData })
    }

    /// Builds a `size` by `size` matrix whose cells all hold the default value of `T`.
    pub fn square(size: usize) -> (made: Result<Self, MatrixError>) where T: Default
        requires
            size * size <= usize::MAX,
        ensures
            made is Err <==> size == 0,
            made matches Err(e) ==> e == MatrixError::InvalidDimensions,
            made matches Ok(m) ==> m.wf() && m.rows() == size && m.cols() == size
                && forall|k: int| 0 <= k < m@.len() ==> call_ensures(T::default, (), #[trigger] m@[k]),
    {
        Self::new(size, size)
    }

    /// Builds a `size` by `size` matrix whose cells each hold one draw from `sampler`.
    pub fn square_random<F: Fn() -> T>(size: usize, sampler: F) -> (made: Result<Self, MatrixError>)
        requires
            size * size <= usize::MAX,
            call_requires(sampler, ()),
        ensures
            made is Err <==> size == 0,
            made matches Err(e) ==> e == MatrixError::InvalidDimensions,
            made matches Ok(m) ==> m.wf() && m.rows() == size && m.cols() == size
                && forall|k: int| 0 <= k < m@.len() ==> call_ensures(sampler, (), #[trigger] m@[k]),
    {
        Self::random(size, size, sampler)
    }

    /// Builds a `size` by `size` matrix whose cells all hold `value`.
    pub fn square_filled(size: usize, value: T) -> (made: Result<Self, MatrixError>) where T: Copy
        requires
            size * size <= usize::MAX,
        ensures
            made is Err <==> size == 0,
            made matches Err(e) ==> e == MatrixError::InvalidDimensions,
            made matches Ok(m) ==> m.wf() && m.rows() == size && m.cols() == size
                && forall|k: int| 0 <= k < m@.len() ==> #[trigger] m@[k] == value,
    {
        Self::filled(size, size, value)
    }

    /// The number of rows.
    pub fn num_rows(&self) -> (n: usize)
        ensures
            n == self.rows(),
    {
        self.num_rows
    }

    /// The number of columns.
    pub fn num_cols(&self) -> (n: usize)
        ensures
            n == self.cols(),
    {
        self.num_cols
    }

    /// Both dimensions at once.
    pub fn dims(&self) -> (d: Dimensions)
        ensures
            d.rows == self.rows(),
            d.cols == self.cols(),
    {
        Dimensions { rows: self.num_rows, cols: self.num_cols }
    }

    /// Whether the matrix has as many rows as columns.
    pub fn is_square(&self) -> (square: bool)
        ensures
            square <==> self.rows() == self.cols(),
    {
        self.num_rows == self.num_cols
    }

    /// The flat buffer, in the order of the layout.
    pub fn data(&self) -> (buffer: &Vec<T>)
        ensures
            buffer@ == self@,
    {
        &self.data
    }

    /// Gives up the matrix for its flat buffer, in the order of the layout.
    pub fn into_flat_buffer(self) -> (buffer: Vec<T>)
        ensures
            buffer@ == self@,
    {
        self.data
    }

    /// The transposed matrix. Not supported: every call reports `Unimplemented`.
    pub fn transpose(&self) -> (flipped: Result<Self, MatrixError>)
        ensures
            flipped matches Err(e) && e == MatrixError::Unimplemented,
    {
        Err(MatrixError::Unimplemented)
    }

    /// A reference to the element in cell `(row, col)`.
    pub fn read(&self, row: usize, col: usize) -> (found: Result<&T, MatrixError>)
        ensures
            found is Ok <==> self.has_cell(row as int, col as int),
            found matches Ok(element) ==> *element == self.cell(row as int, col as int),
            found matches Err(e) ==> e == MatrixError::OutOfBounds,
    {
        if row >= self.num_rows || col >= self.num_cols {
            return Err(MatrixError::OutOfBounds);
        }
        proof {
            use_type_invariant(self);
            O::lemma_offset_of_cell(row as int, col as int, self.num_rows as int, self.num_cols as int);
            assert(self.data.len() == self.num_rows * self.num_cols);
        }
        let idx = O::calc_index((row, col), (self.num_rows, self.num_cols));
        Ok(&self.data[idx])
    }

    /// A mutable reference to the element in cell `(row, col)`: what is written through it
    /// lands in that cell and in no other.
    pub fn write(&mut self, row: usize, col: usize) -> (found: Result<&mut T, MatrixError>)
        ensures
            found is Ok <==> old(self).has_cell(row as int, col as int),
            found matches Ok(element) ==> *element == old(self).cell(row as int, col as int)
                && final(self).rows() == old(self).rows() && final(self).cols() == old(self).cols()
                && final(self)@ == old(self)@.update(old(self).place(row as int, col as int), *final(element)),
            found matches Err(e) ==> e == MatrixError::OutOfBounds && *final(self) == *old(self),
    {
        if row >= self.num_rows || col >= self.num_cols {
            return Err(MatrixError::OutOfBounds);
        }
        proof {
            use_type_invariant(&*self);
            O::lemma_offset_of_cell(row as int, col as int, self.num_rows as int, self.num_cols as int);
            assert(self.data.len() == self.num_rows * self.num_cols);
        }
        let idx = O::calc_index((row, col), (self.num_rows, self.num_cols));
        Ok(&mut self.data[idx])
    }

    /// Whether `after` is `before` with `value` in every cell of the diagonal and every other
    /// cell as it was.
    pub open spec fn diagonal_set(before: Self, after: Self, value: T) -> bool {
        &&& after.rows() == before.rows()
        &&& after.cols() == before.cols()
        &&& after@.len() == before@.len()
        &&& forall|row: int, col: int| #[trigger]
            before.has_cell(row, col) ==> after.cell(row, col) == (if row == col {
                value
            } else {
                before.cell(row, col)
            })
    }

    /// Writes `value` into every cell of the diagonal of a square matrix, and leaves every
    /// other cell as it is.
    pub fn set_diagonal(&mut self, value: T) -> (done: Result<(), MatrixError>) where T: Copy
        ensures
            done is Ok <==> old(self).rows() == old(self).cols(),
            done is Ok ==> Self::diagonal_set(*old(self), *final(self), value),
            done matches Err(e) ==> e == MatrixError::NotSquare && *final(self) == *old(self),
    {
        if !self.is_square() {
            return Err(MatrixError::NotSquare);
        }
        let size = self.num_rows;
        proof {
            use_type_invariant(&*self);
            assert(self.data.len() == size * size);
        }
        let mut i: usize = 0;
        while i < size
            invariant
                i <= size,
                size * size <= usize::MAX,
                self.wf(),
                self.rows() == size,
                self.cols() == size,
                old(self).rows() == size,
                old(self).cols() == size,
                old(self)@.len() == size * size,
                forall|row: int, col: int| #[trigger]
                    old(self).has_cell(row, col) ==> self.cell(row, col) == (if row == col && row
                        < i {
                        value
                    } else {
                        old(self).cell(row, col)
                    }),
            decreases size - i,
        {
            proof {
                O::lemma_offset_of_cell(i as int, i as int, size as int, size as int);
            }
            let idx = O::calc_index((i, i), (size, size));
            self.data[idx] = value;
            proof {
                assert forall|row: int, col: int| #[trigger]
                    old(self).has_cell(row, col) implies self.cell(row, col) == (if row == col
                    && row < i + 1 {
                    value
                } else {
                    old(self).cell(row, col)
                }) by {
                    O::lemma_offset_of_cell(row, col, size as int, size as int);
                }
            }
            i += 1;
        }
        Ok(())
    }

    /// Writes the multiplicative identity of `T` into every cell of the diagonal of a square
    /// matrix, and leaves every other cell as it is.
    pub fn set_identity(&mut self) -> (done: Result<(), MatrixError>) where T: num_traits::One + Copy
        ensures
            done is Ok <==> old(self).rows() == old(self).cols(),
            done is Ok ==> exists|one: T| #[trigger]
                is_identity_of(one) && Self::diagonal_set(*old(self), *final(self), one),
            done matches Err(e) ==> e == MatrixError::NotSquare && *final(self) == *old(self),
    {
        if !self.is_square() {
            return Err(MatrixError::NotSquare);
        }
        let one: T = multiplicative_identity();
        proof {
            assert(is_identity_of(one));
        }
        self.set_diagonal(one)
    }
}

/// Whether `one` is what `T` gives as its multiplicative identity.
pub closed spec fn is_identity_of<T: num_traits::One>(one: T) -> bool {
    call_ensures(multiplicative_identity::<T>, (), one)
}

/// Calls `num_traits::One::one` for `T`. Nothing is claimed of the value that comes back:
/// it is whatever `T` declares to be its multiplicative identity.
#[verifier::external_body]
fn multiplicative_identity<T: num_traits::One>() -> T {
    T::one()
}

impl<T, O: Order> std::ops::Index<(usize, usize)> for Matrix<T, O> {
    type Output = T;

    /// The element in cell `index = (row, col)`, which has to name a cell of the matrix.
    fn index(&self, index: (usize, usize)) -> (element: &T)
        ensures
            *element == self.cell(index.0 as int, index.1 as int),
    {
        proof {
            use_type_invariant(self);
            O::lemma_offset_of_cell(
                index.0 as int,
                index.1 as int,
                self.num_rows as int,
                self.num_cols as int,
            );
            assert(self.data.len() == self.num_rows * self.num_cols);
        }
        let idx = O::calc_index(index, (self.num_rows, self.num_cols));
        &self.data[idx]
    }
}

impl<T, O: Order> vstd::std_specs::core::IndexSpecImpl<(usize, usize)> for Matrix<T, O> {
    open spec fn index_req(&self, index: &(usize, usize)) -> bool {
        self.has_cell(index.0 as int, index.1 as int)
    }
}

} // verus!
