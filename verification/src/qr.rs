//! Producing a module matrix through the QR encoding library.

use vstd::prelude::*;
use crate::level::EcLevel;
use crate::matrix::{grid_matches, grid_wf, ModuleMatrix};
use qrcode::types::QrError;
use qrcode::Color;
use qrcode::EcLevel as QrEc;
use qrcode::QrCode;

verus! {

/// An error from QR symbol generation.
#[derive(Clone, Copy, PartialEq, Eq, Structural, Debug)]
pub enum QrGenError {
    /// The data is too long for the chosen error-correction level.
    DataTooLong,
    /// The version and error-correction level do not go together.
    InvalidVersion,
    /// The data holds characters the symbol cannot carry.
    UnsupportedCharacterSet,
    /// An ECI designator is out of range.
    InvalidEciDesignator,
    /// A character does not belong to the selected character set.
    InvalidCharacter,
}

impl QrGenError {
    /// What [`QrGenError::message`] returns for each error.
    pub open spec fn spec_message(self) -> Seq<char> {
        match self {
            QrGenError::DataTooLong => "data too long"@,
            QrGenError::InvalidVersion => "invalid version"@,
            QrGenError::UnsupportedCharacterSet => "unsupported character set"@,
            QrGenError::InvalidEciDesignator => "invalid ECI designator"@,
            QrGenError::InvalidCharacter => "invalid character"@,
        }
    }

    /// A short, never empty description of the error.
    pub fn message(&self) -> (m: String)
        ensures
            m@ == self.spec_message(),
            m@.len() > 0,
    {
        proof {
            reveal_strlit("data too long");
            reveal_strlit("invalid version");
            reveal_strlit("unsupported character set");
            reveal_strlit("invalid ECI designator");
            reveal_strlit("invalid character");
        }
        match self {
            QrGenError::DataTooLong => "data too long".to_owned(),
            QrGenError::InvalidVersion => "invalid version".to_owned(),
            QrGenError::UnsupportedCharacterSet => "unsupported character set".to_owned(),
            QrGenError::InvalidEciDesignator => "invalid ECI designator".to_owned(),
            QrGenError::InvalidCharacter => "invalid character".to_owned(),
        }
    }
}

/// The module grid the QR encoder builds for the given data at the
/// error-correction level with the given code (see `EcLevel::code`):
/// rows of dark flags, top to bottom.
pub uninterp spec fn qr_modules_of(data: Seq<u8>, level_code: int) -> Seq<Seq<bool>>;

/// The error the QR encoder reports for the given data at the level
/// with the given code, or `None` where it builds a symbol: like the
/// symbol itself, a function of the data and level alone.
pub uninterp spec fn qr_encode_error_of(data: Seq<u8>, level_code: int) -> Option<QrGenError>;

/// Relies on qrcode::QrCode::with_error_correction_level: it builds the
/// QR symbol for the data at the given level, and succeeds or fails, as
/// a function of those two alone; qrcode::QrCode::width is
/// 4 * version + 17 for a version from 1 to 40, and
/// qrcode::QrCode::to_colors lists the symbol's width * width modules
/// row-major.
#[verifier::external_body]
pub(crate) fn encode_modules(data: &Vec<u8>, level: EcLevel) -> (r: Result<ModuleMatrix, QrGenError>)
    ensures
        r is Ok <==> qr_encode_error_of(data@, level.code()) is None,
        r is Err ==> qr_encode_error_of(data@, level.code()) == Some(r->Err_0),
        r is Ok ==> {
            let g = qr_modules_of(data@, level.code());
            &&& grid_wf(g)
            &&& grid_matches(r->Ok_0, g)
            &&& r->Ok_0.wf()
            &&& 21 <= g.len() <= 177
        },
{
    let ec = match level { EcLevel::Low => QrEc::L, EcLevel::Medium => QrEc::M, EcLevel::Quartile => QrEc::Q, EcLevel::High => QrEc::H };
    match QrCode::with_error_correction_level(data.as_slice(), ec) {
        Ok(c) => Ok(ModuleMatrix { width: c.width(), modules: c.to_colors().iter().map(|m| *m == Color::Dark).collect() }),
        Err(QrError::DataTooLong) => Err(QrGenError::DataTooLong),
        Err(QrError::InvalidVersion) => Err(QrGenError::InvalidVersion),
        Err(QrError::UnsupportedCharacterSet) => Err(QrGenError::UnsupportedCharacterSet),
        Err(QrError::InvalidEciDesignator) => Err(QrGenError::InvalidEciDesignator),
        Err(QrError::InvalidCharacter) => Err(QrGenError::InvalidCharacter),
    }
}

} // verus!
