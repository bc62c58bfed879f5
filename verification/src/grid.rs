//! The module grid produced by the QR symbol encoder.

use vstd::prelude::*;
use crate::cli::ErrorCorrectionLevel;
use crate::error::QrError;

verus! {

/// A square grid of dark/light modules, row-major, produced once per render
/// call by the symbol encoder and read-only afterwards.
pub struct ModuleGrid {
    /// Modules per side.
    pub width: usize,
    /// Row-major module colors; `true` is dark.
    pub cells: Vec<bool>,
}

impl ModuleGrid {
    /// Well-formed grids are square, with the side lengths of standard QR
    /// versions 1 to 40.
    pub open spec fn wf(&self) -> bool {
        &&& 21 <= self.width <= 177
        &&& self.cells@.len() == self.width * self.width
    }

    /// Whether the module at `(row, col)` is dark.
    pub open spec fn spec_dark_at(&self, row: int, col: int) -> bool {
        self.cells@[row * self.width + col]
    }

    /// Reads the module at `(row, col)`.
    pub fn is_dark(&self, row: usize, col: usize) -> (r: bool)
        requires
            self.wf(),
            row < self.width,
            col < self.width,
        ensures
            r == self.spec_dark_at(row as int, col as int),
    {
        proof {
            let w = self.width as int;
            assert((row as int) * w + (col as int) < w * w && w * w <= 177 * 177)
                by (nonlinear_arith)
                requires
                    0 <= (row as int) && (row as int) < w,
                    0 <= (col as int) && (col as int) < w,
                    w <= 177,
            ;
        }
        self.cells[row * self.width + col]
    }
}

/// The position of an error correction level in the standard L, M, Q, H
/// order, used to key the named encoder result.
pub open spec fn spec_ec_index(e: ErrorCorrectionLevel) -> int {
    match e {
        ErrorCorrectionLevel::L => 0,
        ErrorCorrectionLevel::M => 1,
        ErrorCorrectionLevel::Q => 2,
        ErrorCorrectionLevel::H => 3,
    }
}

/// What the symbol encoder yields for a payload and error correction level:
/// the side length and the row-major dark flags, or nothing when the payload
/// fits no QR version at that level.
pub uninterp spec fn qr_encode_of(data: Seq<char>, ec: int) -> Option<(nat, Seq<bool>)>;

/// Relies on `qrcode::QrCode::with_error_correction_level` (with `width` and
/// `to_colors`): encodes the payload at the given level into the smallest
/// normal QR version 1..=40, so the returned grid is square with side
/// `4 * version + 17`; it returns `DataTooLong` exactly when the payload
/// exceeds the capacity of every version at that level.
#[verifier::external_body]
pub(crate) fn qr_encode(data: &str, ec: &ErrorCorrectionLevel) -> (r: Result<ModuleGrid, QrError>)
    ensures
        match r {
            Ok(grid) => {
                &&& grid.wf()
                &&& qr_encode_of(data@, spec_ec_index(*ec)) == Some(
                    (grid.width as nat, grid.cells@),
                )
            },
            Err(e) => {
                &&& qr_encode_of(data@, spec_ec_index(*ec)) is None
                &&& (e is DataTooLarge || e is QrGeneration)
            },
        },
{
    let level = match ec {
        ErrorCorrectionLevel::L => qrcode::EcLevel::L,
        ErrorCorrectionLevel::M => qrcode::EcLevel::M,
        ErrorCorrectionLevel::Q => qrcode::EcLevel::Q,
        ErrorCorrectionLevel::H => qrcode::EcLevel::H,
    };
    match qrcode::QrCode::with_error_correction_level(data.as_bytes(), level) {
        Ok(code) => Ok(ModuleGrid {
            width: code.width(),
            cells: code.to_colors().iter().map(|m| matches!(m, qrcode::Color::Dark)).collect(),
        }),
        Err(qrcode::types::QrError::DataTooLong) => Err(QrError::DataTooLarge),
        Err(e) => Err(QrError::QrGeneration(e.to_string())),
    }
}

} // verus!
