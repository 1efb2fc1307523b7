//! A two-dimensional container over one flat buffer, whose storage order
//! (row-major or column-major) is chosen by a type parameter.

pub mod error;
pub mod ingest;
pub mod layout;
pub mod matrix;
pub mod theorems;

pub use error::MatrixError;
pub use layout::ColMajor;
pub use layout::Order;
pub use layout::RowMajor;
pub use matrix::Dimensions;
pub use matrix::Matrix;
