//! Ingestion of delimited text: one record per row, one field per cell, no header.
//!
//! The records come in reading order, row after row. The matrix stores them in the order of
//! its own layout, so a column-major matrix holds the transpose of what was read.

use vstd::prelude::*;
use crate::error::MatrixError;
use crate::layout::Order;
use crate::layout::in_bounds;
use crate::layout::row_major_offset;
use crate::layout::lemma_offset_range;
use crate::layout::lemma_offset_unique;
use crate::matrix::Matrix;

verus! {

/// The records as sequences of fields.
pub open spec fn fields_of<T>(records: Seq<Vec<T>>) -> Seq<Seq<T>> {
    Seq::new(records.len(), |i: int| records[i]@)
}

/// Whether every record has as many fields as the first one.
pub open spec fn rectangular<T>(records: Seq<Seq<T>>) -> bool {
    forall|i: int| 0 <= i < records.len() ==> (#[trigger] records[i]).len() == records[0].len()
}

/// Why `records` cannot become a matrix, or `None` where they can: without a record or
/// without a field there is no cell, and records of unequal length are refused.
pub open spec fn record_fault<T>(records: Seq<Seq<T>>) -> Option<MatrixError> {
    if records.len() == 0 || records[0].len() == 0 {
        Some(MatrixError::InvalidDimensions)
    } else if !rectangular(records) {
        Some(MatrixError::RaggedRecord)
    } else {
        None
    }
}

/// All fields in reading order: top to bottom, and left to right within a record.
pub open spec fn reading_order<T>(records: Seq<Seq<T>>) -> Seq<T> {
    Seq::new(
        records.len() * records[0].len(),
        |k: int| records[k / (records[0].len() as int)][k % (records[0].len() as int)],
    )
}

/// Appends the fields of all records to one buffer, in reading order.
fn flatten_records<T: Copy>(records: &Vec<Vec<T>>) -> (flat: Result<Vec<T>, MatrixError>)
    ensures
        match flat {
            Ok(buffer) => record_fault(fields_of(records@)) is None && buffer@ == reading_order(
                fields_of(records@),
            ),
            Err(e) => record_fault(fields_of(records@)) == Some(e),
        },
{
    let ghost fields = fields_of(records@);
    let num_rows = records.len();
    if num_rows == 0 {
        return Err(MatrixError::InvalidDimensions);
    }
    let num_cols = records[0].len();
    if num_cols == 0 {
        return Err(MatrixError::InvalidDimensions);
    }
    let mut buffer: Vec<T> = Vec::new();
    let mut i: usize = 0;
    while i < num_rows
        invariant
            i <= num_rows,
            num_rows == records@.len(),
            num_cols == fields[0].len(),
            num_cols > 0,
            fields == fields_of(records@),
            forall|a: int| 0 <= a < i ==> (#[trigger] fields[a]).len() == num_cols,
            buffer@.len() == i * num_cols,
            forall|k: int|
                0 <= k < buffer@.len() ==> #[trigger] buffer@[k] == fields[k / (num_cols as int)][k
                    % (num_cols as int)],
        decreases num_rows - i,
    {
        let record = &records[i];
        if record.len() != num_cols {
            proof {
                assert(fields[i as int].len() != fields[0].len());
            }
            return Err(MatrixError::RaggedRecord);
        }
        let mut j: usize = 0;
        while j < num_cols
            invariant
                j <= num_cols,
                i < num_rows,
                num_rows == records@.len(),
                num_cols > 0,
                fields == fields_of(records@),
                *record == records@[i as int],
                record@.len() == num_cols,
                buffer@.len() == i * num_cols + j,
                forall|k: int|
                    0 <= k < buffer@.len() ==> #[trigger] buffer@[k] == fields[k / (
                    num_cols as int)][k % (num_cols as int)],
            decreases num_cols - j,
        {
            proof {
                lemma_offset_unique(i as int, j as int, num_cols as int);
            }
            buffer.push(record[j]);
            j += 1;
        }
        proof {
            assert(i * num_cols + num_cols == (i + 1) * num_cols) by (nonlinear_arith);
        }
        i += 1;
    }
    proof {
        assert(buffer@ =~= reading_order(fields));
    }
    Ok(buffer)
}

/// Moves a buffer in reading order into the order of the layout `O`: the field of row `i`
/// and column `j` goes to the place that `O` gives to cell `(i, j)`.
fn arrange<T: Copy + Default, O: Order>(working: &Vec<T>, num_rows: usize, num_cols: usize) -> (placed:
    Vec<T>)
    requires
        num_rows > 0,
        num_cols > 0,
        working@.len() == num_rows * num_cols,
    ensures
        placed@.len() == num_rows * num_cols,
        forall|i: int, j: int|
            in_bounds(i, j, num_rows as int, num_cols as int) ==> placed@[#[trigger] O::offset(
                i,
                j,
                num_rows as int,
                num_cols as int,
            )] == working@[row_major_offset(i, j, num_rows as int, num_cols as int)],
{
    let len = working.len();
    let mut placed: Vec<T> = Vec::new();
    let mut k: usize = 0;
    while k < len
        invariant
            k <= len,
            placed@.len() == k,
        decreases len - k,
    {
        placed.push(T::default());
        k += 1;
    }
    let mut i: usize = 0;
    while i < num_rows
        invariant
            i <= num_rows,
            num_cols > 0,
            len == num_rows * num_cols,
            working@.len() == len,
            placed@.len() == len,
            forall|a: int, b: int|
                in_bounds(a, b, i as int, num_cols as int) ==> placed@[#[trigger] O::offset(
                    a,
                    b,
                    num_rows as int,
                    num_cols as int,
                )] == working@[row_major_offset(a, b, num_rows as int, num_cols as int)],
        decreases num_rows - i,
    {
        let mut j: usize = 0;
        while j < num_cols
            invariant
                j <= num_cols,
                i < num_rows,
                len == num_rows * num_cols,
                working@.len() == len,
                placed@.len() == len,
                forall|a: int, b: int|
                    (in_bounds(a, b, i as int, num_cols as int) || (a == i && 0 <= b < j))
                        ==> placed@[#[trigger] O::offset(a, b, num_rows as int, num_cols as int)]
                        == working@[row_major_offset(a, b, num_rows as int, num_cols as int)],
            decreases num_cols - j,
        {
            proof {
                lemma_offset_range(i as int, j as int, num_rows as int, num_cols as int);
                O::lemma_offset_of_cell(i as int, j as int, num_rows as int, num_cols as int);
            }
            let source = i * num_cols + j;
            let target = O::calc_index((i, j), (num_rows, num_cols));
            placed[target] = working[source];
            proof {
                assert forall|a: int, b: int|
                    (in_bounds(a, b, i as int, num_cols as int) || (a == i && 0 <= b < j + 1))
                    implies placed@[#[trigger] O::offset(a, b, num_rows as int, num_cols as int)]
                    == working@[row_major_offset(a, b, num_rows as int, num_cols as int)] by {
                    O::lemma_offset_of_cell(a, b, num_rows as int, num_cols as int);
                }
            }
            j += 1;
        }
        i += 1;
    }
    placed
}

impl<T, O: Order> Matrix<T, O> {
    /// Whether the matrix has one row per record and one column per field, and holds in
    /// cell `(row, col)` the field `col` of record `row`.
    pub open spec fn holds_records(&self, records: Seq<Seq<T>>) -> bool {
        &&& self.wf()
        &&& self.rows() == records.len()
        &&& self.cols() == records[0].len()
        &&& forall|row: int, col: int| #[trigger]
            self.has_cell(row, col) ==> self.cell(row, col) == records[row][col]
    }
}

impl<T: Copy + Default, O: Order> Matrix<T, O> {
    /// Builds a matrix from records of fields: the number of records is the number of rows,
    /// the number of fields of the first record is the number of columns. Records of another
    /// length are refused, and so is input without a record or without a field.
    pub fn from_records(records: &Vec<Vec<T>>) -> (made: Result<Self, MatrixError>)
        ensures
            match made {
                Ok(m) => record_fault(fields_of(records@)) is None && m.holds_records(
                    fields_of(records@),
                ),
                Err(e) => record_fault(fields_of(records@)) == Some(e),
            },
    {
        let working = match flatten_records(records) {
            Ok(buffer) => buffer,
            Err(e) => { return Err(e); },
        };
        let num_rows = records.len();
        let num_cols = records[0].len();
        let placed = arrange::<T, O>(&working, num_rows, num_cols);
        let made = Matrix::from_flat_buffer(num_rows, num_cols, placed);
        proof {
            let fields = fields_of(records@);
            let m = made->Ok_0;
            assert forall|row: int, col: int| #[trigger]
                m.has_cell(row, col) implies m.cell(row, col) == fields[row][col] by {
                lemma_offset_range(row, col, num_rows as int, num_cols as int);
                lemma_offset_unique(row, col, num_cols as int);
            }
        }
        made
    }

    /// Builds a matrix from the contents of a delimited text file: records end with the
    /// line, fields are parted by [`FIELD_DELIMITER`], and there is no header. The first
    /// field that cannot be read as a `T` ends the load.
    ///
    /// The text is read by the `csv` crate. The contract speaks of what that reading gave:
    /// records go on to [`Matrix::from_records`], and the result is its result; a failure
    /// of the reading is `RaggedRecord` where the reader found lines of unequal length,
    /// and `FieldParseFailure` else.
    pub fn from_file(contents: &[u8]) -> (made: Result<Self, MatrixError>) where
        T: serde::de::DeserializeOwned,

        ensures
            exists|read: Result<Vec<Vec<T>>, csv::Error>| #[trigger]
                is_reading_of(contents, HAS_HEADER, FIELD_DELIMITER, read) && (match read {
                    Ok(records) => (match made {
                        Ok(m) => record_fault(fields_of(records@)) is None && m.holds_records(
                            fields_of(records@),
                        ),
                        Err(e) => record_fault(fields_of(records@)) == Some(e),
                    }),
                    Err(failure) => exists|ragged: bool| #[trigger]
                        is_kind_of(failure, ragged) && made == Err::<Self, MatrixError>(
                            reading_fault(ragged),
                        ),
                }),
    {
        match read_records::<T>(contents, HAS_HEADER, FIELD_DELIMITER) {
            Ok(records) => {
                let made = Self::from_records(&records);
                proof {
                    assert(is_reading_of(
                        contents,
                        HAS_HEADER,
                        FIELD_DELIMITER,
                        Ok::<Vec<Vec<T>>, csv::Error>(records),
                    ));
                }
                made
            },
            Err(failure) => {
                let ragged = is_unequal_lengths(&failure);
                proof {
                    assert(is_kind_of(failure, ragged));
                    assert(is_reading_of(
                        contents,
                        HAS_HEADER,
                        FIELD_DELIMITER,
                        Err::<Vec<Vec<T>>, csv::Error>(failure),
                    ));
                }
                Err(reading_fault_of(ragged))
            },
        }
    }
}

/// The byte that parts the fields of a record: the comma, `b','`.
pub const FIELD_DELIMITER: u8 = 0x2c;

/// Whether the first line of the text is a header and no record: it is not.
pub const HAS_HEADER: bool = false;

/// The error of a load whose reading failed: `RaggedRecord` where the reader met a record
/// with another number of fields than the one before it, `FieldParseFailure` else.
pub open spec fn reading_fault(ragged: bool) -> MatrixError {
    if ragged {
        MatrixError::RaggedRecord
    } else {
        MatrixError::FieldParseFailure
    }
}

/// The error of a load whose reading failed.
pub fn reading_fault_of(ragged: bool) -> (fault: MatrixError)
    ensures
        fault == reading_fault(ragged),
{
    if ragged {
        MatrixError::RaggedRecord
    } else {
        MatrixError::FieldParseFailure
    }
}

/// Whether `read` is what the reader of delimited text can give for `contents`, with the
/// first line taken as a header or not and with `delimiter` between the fields.
pub closed spec fn is_reading_of<T: serde::de::DeserializeOwned>(
    contents: &[u8],
    has_header: bool,
    delimiter: u8,
    read: Result<Vec<Vec<T>>, csv::Error>,
) -> bool {
    call_ensures(read_records::<T>, (contents, has_header, delimiter), read)
}

/// Whether `ragged` is what the test for lines of unequal length can say of `failure`.
pub closed spec fn is_kind_of(failure: csv::Error, ragged: bool) -> bool {
    call_ensures(is_unequal_lengths, (&failure,), ragged)
}

/// The error type of the `csv` crate.
#[verifier::external_type_specification]
#[verifier::external_body]
pub struct ExCsvError(csv::Error);

/// Reads all records of delimited text with `csv::Reader::deserialize`, each record as a
/// `Vec<T>`, and stops at the first record that fails. The reader is built by
/// `csv::ReaderBuilder` with `has_header` and `delimiter` as given. Nothing is claimed of
/// what comes back.
#[verifier::external_body]
fn read_records<T: serde::de::DeserializeOwned>(
    contents: &[u8],
    has_header: bool,
    delimiter: u8,
) -> Result<Vec<Vec<T>>, csv::Error> {
    let mut reader = csv::ReaderBuilder::new().has_headers(has_header).delimiter(delimiter).from_reader(contents);
    reader.deserialize().collect()
}

/// Whether `csv::Error::kind` is `UnequalLengths`: a record with another number of fields
/// than the record before it. Nothing is claimed of the answer.
#[verifier::external_body]
fn is_unequal_lengths(failure: &csv::Error) -> bool {
    matches!(failure.kind(), csv::ErrorKind::UnequalLengths { .. })
}

} // verus!
