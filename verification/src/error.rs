//! The errors of the library.

use crate::encoder::EncodeFailure;
use vstd::prelude::*;

verus! {

/// Everything that can go wrong between the raw input and the rendered
/// codes.
#[derive(Clone, Copy, Debug, PartialEq, Eq, Structural)]
pub enum Error {
    /// The wanted version is not one of 1 to 40.
    InvalidVersion,
    /// There is nothing to encode.
    EmptyContent,
    /// The encoder gave up on a candidate prefix for a reason other than its
    /// length, or produced a Micro QR code. The encoder never does so on
    /// plain bytes; the search stops rather than guess.
    EncodeProbeFailed,
    /// The search came back to a prefix length that leads nowhere: it would
    /// go round for ever.
    SearchStalled,
    /// The input holds a byte outside ASCII.
    NonAscii,
    /// The bitmap path has no file stem.
    BmpWithoutStem,
    /// The bitmap path has no extension.
    BmpWithoutExtension,
    /// The extension of the bitmap path is not `bmp`.
    BmpWrongExtension,
    /// A chunk could not be encoded.
    Qr(EncodeFailure),
}

} // verus!
