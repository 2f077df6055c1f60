//! The ways in which loading a map or a tile archive can fail.

use crate::text::decimal;
use image::ImageError;
use vstd::prelude::*;
use zip::result::ZipError;

verus! {

/// `std::io::Error`, carried through as it came.
#[verifier::external_type_specification]
#[verifier::external_body]
pub struct ExIoError(std::io::Error);

/// `zip::result::ZipError`, carried through as it came.
#[verifier::external_type_specification]
#[verifier::external_body]
pub struct ExZipError(ZipError);

/// `image::ImageError`, carried through as it came.
#[verifier::external_type_specification]
#[verifier::external_body]
pub struct ExImageError(ImageError);

/// Why a map or a tile archive could not be loaded.
#[derive(Debug)]
pub enum MapLoadError {
    /// The stream ended early, or could not be read.
    IoError(std::io::Error),
    /// The stream is not in the format it was read as; the text says how.
    InvalidFormat(String),
    /// The magic tag is known, the version is not.
    UnsupportedVersion(u32),
    /// The outside map-format library refused the stream; the text is its
    /// message.
    Op2UtilityError(String),
    /// The tile archive could not be opened or walked.
    ZipError(ZipError),
    /// An image could not be decoded.
    ImageError(ImageError),
}

/// The faults that a decoder finds in a byte stream.
pub enum Fault {
    /// The stream ends before the bytes that the format asks for.
    Truncated,
    /// The stream does not begin with the magic tag.
    NotForm2,
    /// The version is not the supported one.
    UnsupportedVersion(u32),
    /// A dimension is zero or beyond the bound.
    BadDimensions(u32, u32),
    /// The kind byte of a cell is none of the eight kinds.
    BadCellType(u8),
}

impl MapLoadError {
    /// The error that reports fault `f`, with the exact text of its message.
    pub open spec fn reports(self, f: Fault) -> bool {
        match f {
            Fault::Truncated => self is IoError,
            Fault::NotForm2 => self matches MapLoadError::InvalidFormat(detail) && detail@
                == "Not a FORM2 map file"@,
            Fault::UnsupportedVersion(v) => self matches MapLoadError::UnsupportedVersion(w) && w
                == v,
            Fault::BadDimensions(width, height) => self matches MapLoadError::InvalidFormat(detail)
                && detail@ == "Invalid map dimensions: "@ + decimal(width as nat) + "x"@ + decimal(
                height as nat,
            ),
            Fault::BadCellType(n) => self matches MapLoadError::InvalidFormat(detail) && detail@
                == "Invalid cell type: "@ + decimal(n as nat),
        }
    }
}

/// `Read::read_exact` on an empty reader, for a buffer of one byte: the error
/// that a reader gives when the stream ends before a buffer is full, with
/// the kind and the text that the standard library gives it.
#[verifier::external_body]
pub(crate) fn unexpected_eof() -> std::io::Error {
    let mut wanted = [0u8; 1];
    std::io::Read::read_exact(&mut std::io::empty(), &mut wanted).unwrap_err()
}

} // verus!
