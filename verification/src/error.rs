//! Why a dataset could not be loaded.

use vstd::prelude::*;

verus! {

/// The reason a dataset was rejected. Loading stops at the first fault, in the
/// order of the stages: decompression, tabular text, header, data rows.
#[derive(Clone, Copy, Debug, PartialEq, Eq, Structural)]
pub enum DataLoadError {
    /// The bytes are not a gzip stream.
    Gzip,
    /// The decompressed bytes are not well-formed delimited text.
    Csv,
    /// There is no header row, or it does not name each required column
    /// exactly once.
    Header,
    /// The row at this position of the table (the header is row 0) is too
    /// short or its municipality identifier is not a sixteen-bit number.
    Row(usize),
}

} // verus!
