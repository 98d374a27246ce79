//! The failures a store operation can end in.

use vstd::prelude::*;

verus! {

/// Why a store operation failed.
///
/// The operations on a document that was read fail with `NotFound` only.
/// The other two failures arise where the document is read and written.
#[derive(Debug, Clone, Copy, PartialEq, Eq, Structural)]
pub enum StoreError {
    /// No record in the document has the requested key.
    NotFound,
    /// The document could not be read from or written to its path.
    IoFailure,
    /// The document's contents are not a sequence of records.
    DecodeFailure,
}

/// The text that describes `error`.
pub open spec fn message_of(error: StoreError) -> Seq<char> {
    match error {
        StoreError::NotFound => "Element not found"@,
        StoreError::IoFailure => "Document could not be read or written"@,
        StoreError::DecodeFailure => "Document could not be decoded"@,
    }
}

impl StoreError {
    /// A description of the failure, for display.
    pub fn message(&self) -> (text: &'static str)
        ensures
            text@ == message_of(*self),
    {
        match self {
            StoreError::NotFound => "Element not found",
            StoreError::IoFailure => "Document could not be read or written",
            StoreError::DecodeFailure => "Document could not be decoded",
        }
    }
}

} // verus!
