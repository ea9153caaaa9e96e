//! The options that shape the output.

use std::path::PathBuf;
use vstd::prelude::*;

verus! {

/// A path in the file system. The library carries it and never looks
/// inside.
#[verifier::external_type_specification]
#[verifier::external_body]
pub struct ExPathBuf(PathBuf);

/// The options of one run.
#[derive(Debug)]
pub struct Params {
    /// Max QR code version to use.
    pub qr_version: u8,
    /// Modules at the border of the QR code.
    pub border: u8,
    /// Number of empty lines between one QR code and the following.
    pub empty_lines: u8,
    /// Invert the QR code modules, which can be useful for printing.
    pub invert: bool,
    /// A label at the top of each QR code.
    pub label: Option<String>,
    /// Where to write bitmap files, instead of rendering text.
    pub bmp: Option<PathBuf>,
    /// The number of pixels for every QR code module in a bitmap.
    pub bmp_pixel_per_module: u8,
}

impl Default for Params {
    fn default() -> (params: Params)
        ensures
            params.qr_version == 16,
            params.border == 4,
            params.empty_lines == 6,
            !params.invert,
            params.label is None,
            params.bmp is None,
            params.bmp_pixel_per_module == 12,
    {
        Params {
            qr_version: 16,
            border: 4,
            empty_lines: 6,
            invert: false,
            label: None,
            bmp: None,
            bmp_pixel_per_module: 12,
        }
    }
}

} // verus!
