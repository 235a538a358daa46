//! Error kinds surfaced by the conversion pipeline.

use vstd::prelude::*;

verus! {

/// Every stage surfaces its failure immediately; a failed conversion never
/// reports partial artifacts.
#[derive(Debug)]
pub enum ConvError {
    /// The source file is missing, corrupt, or of an unsupported format.
    DecodeError(String),
    /// The source image has a zero dimension, or the requested output raster
    /// would not fit in machine integers.
    InvalidDimensions,
    /// The bundled font asset is malformed.
    FontLoadError(String),
    /// Preview or raster encoding failed.
    EncodeError(String),
    /// Writing the raster or the text file failed.
    IOError(String),
}

} // verus!
