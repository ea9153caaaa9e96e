//! The rules for the names of bitmap files: what the path must look like,
//! and how the files of several codes are told apart.

use crate::error::Error;
use crate::text::{decimal, push_decimal};
use vstd::prelude::*;
use vstd::string::StringExecFns;

verus! {

/// The extension that a bitmap path must have.
pub open spec fn bmp_extension() -> Seq<char> {
    seq!['b', 'm', 'p']
}

/// Whether `error` is a fault of the bitmap path.
pub open spec fn is_path_fault(error: Error) -> bool {
    error == Error::BmpWithoutStem || error == Error::BmpWithoutExtension || error
        == Error::BmpWrongExtension
}

/// Whether a path with this stem and this extension can take bitmaps, and
/// if not, what is wrong with it. A missing stem is found first, then a
/// missing extension, then a wrong one.
pub open spec fn bmp_path_checked(stem: Option<Seq<char>>, extension: Option<Seq<char>>) -> Result<
    (),
    Error,
> {
    if stem is None {
        Err(Error::BmpWithoutStem)
    } else if extension is None {
        Err(Error::BmpWithoutExtension)
    } else if extension->Some_0 != bmp_extension() {
        Err(Error::BmpWrongExtension)
    } else {
        Ok(())
    }
}

/// The file name of code `index` where there are several: the stem, an
/// underscore, the index counted from zero, a dot and the extension.
pub open spec fn numbered_name(stem: Seq<char>, index: nat, extension: Seq<char>) -> Seq<char> {
    stem + seq!['_'] + decimal(index) + seq!['.'] + extension
}

/// The file name of code `index` out of `count`: a numbered name where
/// there are several codes, and none, which leaves the path as it was given,
/// where there is one.
pub open spec fn bitmap_name(stem: Seq<char>, extension: Seq<char>, index: nat, count: nat) -> Option<
    Seq<char>,
> {
    if count > 1 {
        Some(numbered_name(stem, index, extension))
    } else {
        None
    }
}

/// Checks the stem and the extension of the path that bitmaps go to.
pub fn check_bmp_path(stem: Option<&str>, extension: Option<&str>) -> (result: Result<(), Error>)
    ensures
        result == bmp_path_checked(
            match stem {
                Some(stem) => Some(stem@),
                None => None,
            },
            match extension {
                Some(extension) => Some(extension@),
                None => None,
            },
        ),
{
    if stem.is_none() {
        return Err(Error::BmpWithoutStem);
    }
    match extension {
        None => Err(Error::BmpWithoutExtension),
        Some(extension) => {
            proof {
                reveal_strlit("bmp");
                assert("bmp"@ =~= bmp_extension());
            }
            if String::from_str(extension) == String::from_str("bmp") {
                Ok(())
            } else {
                Err(Error::BmpWrongExtension)
            }
        },
    }
}

/// Writes the file name of code `index` where there are several.
pub fn numbered_file_name(stem: &str, index: usize, extension: &str) -> (name: String)
    ensures
        name@ == numbered_name(stem@, index as nat, extension@),
{
    proof {
        reveal_strlit("_");
        reveal_strlit(".");
    }
    let mut name = String::new();
    name.append(stem);
    name.append("_");
    push_decimal(&mut name, index);
    name.append(".");
    name.append(extension);
    name
}

} // verus!
