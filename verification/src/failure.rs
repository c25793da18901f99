//! The ways in which a request for segmentation can fail.

use vstd::prelude::*;

verus! {

/// Why no spans were produced.
#[derive(Clone, Copy, Debug, PartialEq, Eq, Structural)]
pub enum Failure {
    /// The engine could not be set up with its dictionary.
    Initialization,
    /// No input buffer was given.
    NullInput,
    /// The input bytes are not UTF-8.
    InvalidEncoding,
    /// The text is longer than the engine is given.
    Oversized,
    /// The engine reported that it could not process the text.
    Tokenization,
}

} // verus!
