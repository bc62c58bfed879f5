//! Error values surfaced by the rendering pipeline.

use vstd::prelude::*;

verus! {

/// Error cases of QR generation, rendering and decoding. Every operation in
/// this library reports failure through one of these values; verified code
/// never panics on malformed input.
#[derive(Debug)]
pub enum QrError {
    /// The symbol encoder could not build a code from the payload.
    QrGeneration(String),
    /// The payload exceeds the capacity of the highest QR version at the
    /// requested error correction level.
    DataTooLarge,
    /// A file could not be written; carries the path and a description.
    FileWrite(String, String),
    /// A file could not be read; carries the path and a description.
    FileRead(String, String),
    /// A color string was not valid 3- or 6-digit hex; carries the offending
    /// text (with any leading `#` removed).
    InvalidColor(String),
    /// No QR code could be decoded from the given image.
    DecodeError(String),
    /// An image contained no recognisable QR code.
    NoQrCodeFound,
    /// A CSV batch file could not be parsed.
    CsvError(String),
    /// A JSON batch file could not be parsed.
    JsonError(String),
    /// A date/time string had an unusable format.
    InvalidDateTime(String),
    /// Logo or pixel-buffer processing failed.
    ImageError(String),
    /// The interactive wizard failed.
    InteractiveError(String),
    /// The requested output size is too small for the module count and quiet
    /// zone: the computed module size would be zero.
    InvalidConfiguration(String),
}

} // verus!
