use vstd::prelude::*;

verus! {

/// The ways in which reading a file can fail.
#[derive(Clone, Copy, Debug, PartialEq, Eq, Structural)]
pub enum Error {
    /// The underlying stream could not be read or positioned.
    Io,
    /// The data is structurally malformed.
    FormatError,
    /// A segment declares a compression kind that is not handled.
    UnsupportedCompression,
    /// The file declares a required feature that is not implemented.
    UnsupportedFeature,
    /// A segment declares a size above the configured ceiling.
    BlobTooLarge,
}

} // verus!
