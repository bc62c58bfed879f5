//! Decoding a QR code back out of an encoded image, given as plain bytes.

use vstd::prelude::*;
use crate::codecs::{image_decode_luma, luma_of};
use crate::error::QrError;

verus! {

/// The text decoded out of a QR symbol.
#[derive(Debug)]
pub struct DecodedQr {
    pub content: String,
}

/// What the barcode detector finds in a luminance buffer of the given
/// dimensions: the decoded text, or nothing when no QR code is recognised.
pub uninterp spec fn qr_detect_of(luma: Seq<u8>, w: int, h: int) -> Option<Seq<char>>;

/// Relies on `rxing::helpers::detect_in_luma_with_hints` restricted to the
/// QR code format with the try-harder hint: finds and decodes a QR symbol in
/// an 8-bit luminance image.
#[verifier::external_body]
fn detect_qr_in_luma(luma: Vec<u8>, w: u32, h: u32) -> (r: Result<String, QrError>)
    requires
        luma@.len() == w * h,
    ensures
        match r {
            Ok(s) => qr_detect_of(luma@, w as int, h as int) == Some(s@),
            Err(e) => {
                &&& qr_detect_of(luma@, w as int, h as int) is None
                &&& e is DecodeError
            },
        },
{
    let mut hints = rxing::DecodeHints::default();
    hints.TryHarder = Some(true);
    let fmt = Some(rxing::BarcodeFormat::QR_CODE);
    match rxing::helpers::detect_in_luma_with_hints(luma, w, h, fmt, &mut hints) {
        Ok(res) => Ok(res.getText().to_string()),
        Err(e) => Err(QrError::DecodeError(format!("{e:?}"))),
    }
}

/// Decodes the QR code in an encoded image file (PNG, JPEG, ...) given as
/// bytes. Fails with an image error when the bytes are no readable image and
/// with a decode error when the image holds no recognisable QR code.
pub fn decode_image_bytes(bytes: &Vec<u8>) -> (r: Result<DecodedQr, QrError>)
    ensures
        match r {
            Ok(d) => luma_of(bytes@) matches Some(t) && qr_detect_of(t.2, t.0 as int, t.1 as int)
                == Some(d.content@),
            Err(e) => match e {
                QrError::ImageError(_) => luma_of(bytes@) is None,
                QrError::DecodeError(_) => luma_of(bytes@) matches Some(t) && qr_detect_of(
                    t.2,
                    t.0 as int,
                    t.1 as int,
                ) is None,
                _ => false,
            },
        },
{
    let (w, h, luma) = match image_decode_luma(bytes) {
        Ok(t) => t,
        Err(e) => {
            return Err(e);
        },
    };
    let content = match detect_qr_in_luma(luma, w, h) {
        Ok(s) => s,
        Err(e) => {
            return Err(e);
        },
    };
    Ok(DecodedQr { content })
}

} // verus!
