//! The failures that the matrix operations report.

use vstd::prelude::*;

verus! {

/// Why an operation on a matrix did not succeed.
#[derive(Clone, Copy, Debug, PartialEq, Eq, Structural)]
pub enum MatrixError {
    /// The number of rows or the number of columns is zero.
    InvalidDimensions,
    /// A flat buffer does not hold exactly `rows * cols` elements.
    LengthMismatch,
    /// The operation needs a square matrix, and this one is not.
    NotSquare,
    /// A field of the delimited text could not be read as an element.
    FieldParseFailure,
    /// A record of the delimited text has another number of fields than the first record.
    RaggedRecord,
    /// A coordinate lies outside the matrix.
    OutOfBounds,
    /// The operation is not supported.
    Unimplemented,
}

impl MatrixError {
    /// The text that [`MatrixError::message`] gives for this error.
    pub open spec fn spec_message(self) -> Seq<char> {
        match self {
            MatrixError::InvalidDimensions => "Number of rows or number of columns cannot be 0."@,
            MatrixError::LengthMismatch => "Buffer length does not match the dimensions."@,
            MatrixError::NotSquare => "Can't make non-square matrix an identity matrix."@,
            MatrixError::FieldParseFailure => "A field could not be read as an element."@,
            MatrixError::RaggedRecord => "Records differ in their number of fields."@,
            MatrixError::OutOfBounds => "Coordinate lies outside the matrix."@,
            MatrixError::Unimplemented => "Operation is not implemented."@,
        }
    }

    /// A sentence that describes the error.
    pub fn message(&self) -> (text: String)
        ensures
            text@ == self.spec_message(),
    {
        match self {
            MatrixError::InvalidDimensions => "Number of rows or number of columns cannot be 0.".to_string(),
            MatrixError::LengthMismatch => "Buffer length does not match the dimensions.".to_string(),
            MatrixError::NotSquare => "Can't make non-square matrix an identity matrix.".to_string(),
            MatrixError::FieldParseFailure => "A field could not be read as an element.".to_string(),
            MatrixError::RaggedRecord => "Records differ in their number of fields.".to_string(),
            MatrixError::OutOfBounds => "Coordinate lies outside the matrix.".to_string(),
            MatrixError::Unimplemented => "Operation is not implemented.".to_string(),
        }
    }
}

} // verus!
