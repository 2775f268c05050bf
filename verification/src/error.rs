use vstd::prelude::*;

verus! {

/// A fatal failure of one conversion. Nothing is retried: every variant
/// aborts the conversion and is reported to the caller.
#[derive(Debug, PartialEq, Eq)]
pub enum ConversionError {
    /// The external decoder rejected the input; its message is carried along.
    Decode(String),
    /// The decoder produced no metadata, so the resolution cannot be read.
    MissingMetadata,
    /// The raw byte count does not describe a whole number of RGB pixels of
    /// the stated resolution.
    InvalidPixelCount,
    /// An averaging step received zero eligible pixels.
    EmptyInput,
}

} // verus!
