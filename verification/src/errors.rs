//! The failure taxonomy of the pipeline. Every failure is immediately
//! fatal to the operation in progress: there is no retry and no partial
//! result.

use vstd::prelude::*;

verus! {

/// A typed pipeline failure.
#[derive(Clone, Copy, Debug, PartialEq, Eq, Structural)]
pub enum DataError {
    /// The source could not be read.
    IoError,
    /// A line is missing the tab field delimiter.
    FormatError,
    /// A label field is neither `ham` nor `spam`.
    LabelError,
    /// The input bytes are not valid text.
    DecodeError,
}

} // verus!
