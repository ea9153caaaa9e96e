//! The boundary to the `qr_code` crate: what an encoded symbol is to this
//! library, and the calls that produce it.

use qr_code::bits::encode_auto;
use qr_code::types::QrError;
use qr_code::{EcLevel, QrCode, Version};
use vstd::prelude::*;

verus! {

/// The size class of an encoded symbol.
#[derive(Clone, Copy, Debug, PartialEq, Eq, Structural)]
pub enum SymbolVersion {
    /// A regular QR code; the number runs from 1 to 40.
    Normal(i16),
    /// A Micro QR code; the number runs from 1 to 4.
    Micro(i16),
}

/// Why a buffer could not be encoded.
#[derive(Clone, Copy, Debug, PartialEq, Eq, Structural)]
pub enum EncodeFailure {
    /// The data does not fit the largest symbol.
    DataTooLong,
    /// The version and error correction level do not go together.
    InvalidVersion,
    /// The data holds characters that the version cannot carry.
    UnsupportedCharacterSet,
    /// The ECI designator is out of range.
    InvalidEciDesignator,
    /// A character outside the character set was found.
    InvalidCharacter,
    /// Structured append failed.
    Structured,
}

/// The version that `qr_code::bits::encode_auto` picks for `data` at the
/// medium error correction level, or why it gives none.
pub uninterp spec fn encoded_version(data: Seq<u8>) -> Result<SymbolVersion, EncodeFailure>;

/// Finds the smallest version that holds `data`, with
/// `qr_code::bits::encode_auto` at the medium error correction level and
/// `Bits::version`. This is how `QrCode::new` settles the version before it
/// draws; nothing is drawn here.
///
/// Trusted: the outcome is a function of the bytes alone, so it is
/// `encoded_version(data@)`. Nothing is claimed about which version or
/// failure that is.
#[verifier::external_body]
pub(crate) fn encode_version(data: &[u8]) -> (r: Result<SymbolVersion, EncodeFailure>)
    ensures
        r == encoded_version(data@),
{
    match encode_auto(data, EcLevel::M) {
        Ok(bits) => match bits.version() {
            Version::Normal(v) => Ok(SymbolVersion::Normal(v)),
            Version::Micro(v) => Ok(SymbolVersion::Micro(v)),
        },
        Err(QrError::DataTooLong) => Err(EncodeFailure::DataTooLong),
        Err(QrError::InvalidVersion) => Err(EncodeFailure::InvalidVersion),
        Err(QrError::UnsupportedCharacterSet) => Err(EncodeFailure::UnsupportedCharacterSet),
        Err(QrError::InvalidEciDesignator) => Err(EncodeFailure::InvalidEciDesignator),
        Err(QrError::InvalidCharacter) => Err(EncodeFailure::InvalidCharacter),
        Err(QrError::Structured(_)) => Err(EncodeFailure::Structured),
    }
}

/// An encoded symbol, as far as this library reads it.
#[derive(Debug, PartialEq, Eq)]
pub struct Symbol {
    /// The size class of the symbol.
    pub version: SymbolVersion,
    /// The symbol drawn with block characters, border included.
    pub text: String,
}

/// The version of the symbol that `qr_code::QrCode::new` makes of `data`,
/// or why it makes none.
pub uninterp spec fn symbol_version(data: Seq<u8>) -> Result<SymbolVersion, EncodeFailure>;

/// The text that `qr_code::QrCode::to_string` draws for the symbol of
/// `data`, with `border` modules around it.
pub uninterp spec fn symbol_text(data: Seq<u8>, inverted: bool, border: u8) -> Seq<char>;

/// Encodes `data` with `qr_code::QrCode::new` and takes from the symbol its
/// version (`QrCode::version`) and its drawing as text
/// (`QrCode::to_string`).
///
/// Trusted: the version, or the failure, depends on the bytes alone, and
/// the drawing on the bytes, the colours and the border alone. A border of
/// 255 modules is left out: the count of border lines would overflow.
#[verifier::external_body]
pub(crate) fn encode_symbol(data: &[u8], inverted: bool, border: u8) -> (r: Result<
    Symbol,
    EncodeFailure,
>)
    requires
        border < u8::MAX,
    ensures
        match r {
            Ok(symbol) => {
                &&& symbol_version(data@) == Ok::<SymbolVersion, EncodeFailure>(symbol.version)
                &&& symbol.text@ == symbol_text(data@, inverted, border)
            },
            Err(failure) => symbol_version(data@) == Err::<SymbolVersion, EncodeFailure>(failure),
        },
{
    match QrCode::new(data) {
        Ok(code) => Ok(Symbol {
            version: match code.version() {
                Version::Normal(v) => SymbolVersion::Normal(v),
                Version::Micro(v) => SymbolVersion::Micro(v),
            },
            text: code.to_string(inverted, border),
        }),
        Err(QrError::DataTooLong) => Err(EncodeFailure::DataTooLong),
        Err(QrError::InvalidVersion) => Err(EncodeFailure::InvalidVersion),
        Err(QrError::UnsupportedCharacterSet) => Err(EncodeFailure::UnsupportedCharacterSet),
        Err(QrError::InvalidEciDesignator) => Err(EncodeFailure::InvalidEciDesignator),
        Err(QrError::InvalidCharacter) => Err(EncodeFailure::InvalidCharacter),
        Err(QrError::Structured(_)) => Err(EncodeFailure::Structured),
    }
}

} // verus!
