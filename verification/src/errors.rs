//! The failures of the encoding pipeline.

use vstd::prelude::*;
use vstd::std_specs::convert::FromSpecImpl;

verus! {

/// Why a file could not be turned into QR codes.
///
/// Every failure is a function of the input alone: running the pipeline again
/// on the same file and configuration fails in the same way.
#[derive(Clone, Copy, Debug, PartialEq, Eq, Structural)]
pub enum Error {
    /// The payload text is not valid standard base64.
    Decode,
    /// The raw file has fewer than twelve bytes, so it has no type tag.
    TooShort,
    /// The container needs more than 255 codes, or a wire frame does not fit
    /// into one QR symbol of the configured version and error correction.
    CapacityExceeded,
    /// The compressor has no stream for the file.
    Compression,
    /// The QR symbol could not be generated for a reason other than capacity.
    Render,
}

/// Carries a pipeline failure across the boundary to a serving layer.
#[derive(Clone, Copy, Debug, PartialEq, Eq, Structural)]
pub struct ErrorWrapper {
    pub error: Error,
}

impl From<Error> for ErrorWrapper {
    fn from(error: Error) -> (wrapped: Self) {
        ErrorWrapper { error }
    }
}

impl FromSpecImpl<Error> for ErrorWrapper {
    open spec fn obeys_from_spec() -> bool {
        true
    }

    open spec fn from_spec(error: Error) -> Self {
        ErrorWrapper { error }
    }
}

} // verus!
