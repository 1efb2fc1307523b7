use layout_matrix::ColMajor;
use layout_matrix::Matrix;
use layout_matrix::MatrixError;
use layout_matrix::RowMajor;
use std::cell::Cell;

#[test]
fn make_matrix() {
    let m1: Matrix<usize, ColMajor> = Matrix::new(2, 3).unwrap();

    assert_eq!(m1.num_rows(), 2);
    assert_eq!(m1.num_cols(), 3);
    assert_eq!(*m1.data(), vec![0, 0, 0, 0, 0, 0]);
    assert_eq!(m1.data().len(), 6);
    assert!(!m1.is_square());

    assert!(Matrix::<usize, ColMajor>::new(0, 0).is_err());
}

#[test]
fn is_square() {
    let m1: Matrix<usize, ColMajor> = Matrix::new(3, 3).unwrap();
    assert!(m1.is_square());

    let m1: Matrix<usize, ColMajor> = Matrix::new(3, 2).unwrap();
    assert!(!m1.is_square());
}

#[test]
fn default_fills_every_cell_with_the_default_value() {
    for (rows, cols) in [(1, 1), (1, 7), (4, 5), (6, 2)] {
        let m: Matrix<i32, RowMajor> = Matrix::default(rows, cols).unwrap();
        assert_eq!(m.dims().rows, rows);
        assert_eq!(m.dims().cols, cols);
        assert_eq!(m.data().len(), rows * cols);
        assert!(m.data().iter().all(|cell| *cell == i32::default()));
        for i in 0..rows {
            for j in 0..cols {
                assert_eq!(*m.read(i, j).unwrap(), 0);
            }
        }
    }
}

#[test]
fn zero_rows_or_zero_columns_are_refused() {
    for n in [0usize, 1, 2, 17, 1000] {
        assert_eq!(Matrix::<u8, RowMajor>::new(0, n).err(), Some(MatrixError::InvalidDimensions));
        assert_eq!(Matrix::<u8, RowMajor>::new(n, 0).err(), Some(MatrixError::InvalidDimensions));
        assert_eq!(Matrix::<u8, ColMajor>::new(0, n).err(), Some(MatrixError::InvalidDimensions));
        assert_eq!(Matrix::<u8, ColMajor>::new(n, 0).err(), Some(MatrixError::InvalidDimensions));
        assert_eq!(Matrix::<u8, RowMajor>::default(0, n).err(), Some(MatrixError::InvalidDimensions));
        assert_eq!(Matrix::<u8, RowMajor>::filled(n, 0, 3).err(), Some(MatrixError::InvalidDimensions));
        assert_eq!(
            Matrix::<u8, RowMajor>::from_fn(0, n, || 1).err(),
            Some(MatrixError::InvalidDimensions)
        );
        assert_eq!(
            Matrix::<u8, RowMajor>::random(n, 0, || 1).err(),
            Some(MatrixError::InvalidDimensions)
        );
    }
    assert_eq!(Matrix::<u8, RowMajor>::square(0).err(), Some(MatrixError::InvalidDimensions));
    assert_eq!(Matrix::<u8, RowMajor>::square_filled(0, 1).err(), Some(MatrixError::InvalidDimensions));
    assert_eq!(
        Matrix::<u8, RowMajor>::square_random(0, || 1).err(),
        Some(MatrixError::InvalidDimensions)
    );
}

#[test]
fn producer_is_asked_once_per_cell_in_buffer_order() {
    let calls = Cell::new(0u32);
    let next = || {
        calls.set(calls.get() + 1);
        calls.get()
    };
    let m: Matrix<u32, ColMajor> = Matrix::from_fn(2, 3, next).unwrap();
    assert_eq!(calls.get(), 6);
    assert_eq!(*m.data(), vec![1, 2, 3, 4, 5, 6]);
    assert_eq!(m.dims().rows, 2);
    assert_eq!(m.dims().cols, 3);
}

#[test]
fn producer_is_not_asked_for_a_matrix_without_cells() {
    let calls = Cell::new(0u32);
    let next = || {
        calls.set(calls.get() + 1);
        calls.get()
    };
    assert!(Matrix::<u32, ColMajor>::from_fn(0, 3, next).is_err());
    assert_eq!(calls.get(), 0);
}

#[test]
fn filled_copies_the_value_into_every_cell() {
    let m: Matrix<i64, ColMajor> = Matrix::filled(3, 2, -4).unwrap();
    assert_eq!(*m.data(), vec![-4, -4, -4, -4, -4, -4]);
    assert_eq!(m.num_rows(), 3);
    assert_eq!(m.num_cols(), 2);
}

#[test]
fn square_forms_use_the_size_for_both_dimensions() {
    let zero: Matrix<u16, RowMajor> = Matrix::square(3).unwrap();
    assert_eq!(zero.dims().rows, 3);
    assert_eq!(zero.dims().cols, 3);
    assert!(zero.is_square());
    assert_eq!(*zero.data(), vec![0; 9]);

    let nines: Matrix<u16, RowMajor> = Matrix::square_filled(2, 9).unwrap();
    assert_eq!(nines.dims().rows, 2);
    assert_eq!(nines.dims().cols, 2);
    assert_eq!(*nines.data(), vec![9, 9, 9, 9]);

    let state = Cell::new(10u16);
    let drawn: Matrix<u16, RowMajor> = Matrix::square_random(2, || {
        state.set(state.get() + 1);
        state.get()
    })
    .unwrap();
    assert_eq!(drawn.dims().rows, 2);
    assert_eq!(drawn.dims().cols, 2);
    assert_eq!(*drawn.data(), vec![11, 12, 13, 14]);
}

#[test]
fn random_matrix_has_a_cell_that_is_not_the_default() {
    let state = Cell::new(0x2545_f491_4f6c_dd1du64);
    let sampler = || {
        let mut x = state.get();
        x ^= x << 13;
        x ^= x >> 7;
        x ^= x << 17;
        state.set(x);
        x
    };
    for _ in 0..50 {
        let m: Matrix<u64, RowMajor> = Matrix::random(1, 2, &sampler).unwrap();
        assert_eq!(m.data().len(), 2);
        assert!(m.data().iter().any(|cell| *cell != u64::default()));
    }
    let m: Matrix<u64, ColMajor> = Matrix::random(5, 4, &sampler).unwrap();
    assert_eq!(m.dims().rows, 5);
    assert_eq!(m.dims().cols, 4);
    assert!(m.data().iter().any(|cell| *cell != u64::default()));
}

#[test]
fn flat_buffer_of_another_length_is_refused() {
    for len in [0usize, 1, 5, 7, 12] {
        let made = Matrix::<u8, RowMajor>::from_flat_buffer(2, 3, vec![1; len]);
        assert_eq!(made.err(), Some(MatrixError::LengthMismatch));
        let made = Matrix::<u8, ColMajor>::from_flat_buffer(2, 3, vec![1; len]);
        assert_eq!(made.err(), Some(MatrixError::LengthMismatch));
    }
    assert!(Matrix::<u8, RowMajor>::from_flat_buffer(2, 3, vec![1; 6]).is_ok());
    let made = Matrix::<u8, RowMajor>::from_flat_buffer(0, 3, vec![1; 2]);
    assert_eq!(made.err(), Some(MatrixError::LengthMismatch));
    let made = Matrix::<u8, RowMajor>::from_flat_buffer(usize::MAX, 2, vec![1; 2]);
    assert_eq!(made.err(), Some(MatrixError::LengthMismatch));
}

#[test]
fn flat_buffer_without_cells_is_refused() {
    let made = Matrix::<u8, RowMajor>::from_flat_buffer(0, 3, Vec::new());
    assert_eq!(made.err(), Some(MatrixError::InvalidDimensions));
    let made = Matrix::<u8, RowMajor>::from_flat_buffer(3, 0, Vec::new());
    assert_eq!(made.err(), Some(MatrixError::InvalidDimensions));
    let made = Matrix::<u8, RowMajor>::from_flat_buffer(0, 0, Vec::new());
    assert_eq!(made.err(), Some(MatrixError::InvalidDimensions));
}

#[test]
fn flat_buffer_comes_back_as_it_went_in() {
    let buffer = vec![10, 20, 30, 40, 50, 60];
    let by_rows = Matrix::<i32, RowMajor>::from_flat_buffer(2, 3, buffer.clone()).unwrap();
    assert_eq!(*by_rows.data(), buffer);
    assert_eq!(by_rows.into_flat_buffer(), buffer);
    let by_cols = Matrix::<i32, ColMajor>::from_flat_buffer(2, 3, buffer.clone()).unwrap();
    assert_eq!(*by_cols.data(), buffer);
    assert_eq!(by_cols.into_flat_buffer(), buffer);
}

#[test]
fn row_major_cell_is_read_at_row_times_cols_plus_col() {
    let buffer = vec![10, 20, 30, 40, 50, 60];
    let m = Matrix::<i32, RowMajor>::from_flat_buffer(2, 3, buffer.clone()).unwrap();
    for i in 0..2 {
        for j in 0..3 {
            assert_eq!(*m.read(i, j).unwrap(), buffer[i * 3 + j]);
            assert_eq!(m[(i, j)], buffer[i * 3 + j]);
        }
    }
    assert_eq!(*m.read(1, 0).unwrap(), 40);
}

#[test]
fn col_major_cell_is_read_at_col_times_rows_plus_row() {
    let buffer = vec![10, 20, 30, 40, 50, 60];
    let m = Matrix::<i32, ColMajor>::from_flat_buffer(2, 3, buffer.clone()).unwrap();
    for i in 0..2 {
        for j in 0..3 {
            assert_eq!(*m.read(i, j).unwrap(), buffer[j * 2 + i]);
            assert_eq!(m[(i, j)], buffer[j * 2 + i]);
        }
    }
    assert_eq!(*m.read(1, 0).unwrap(), 20);
    assert_eq!(*m.read(0, 1).unwrap(), 30);
}
