use cqr::decoder::decode_image_bytes;
use cqr::renderer::{render_to_png_bytes, RenderConfig};

#[test]
fn test_decode_generated_qr() {
    // 1. Generate a QR code as PNG bytes
    let data = "https://example.com/test-decode";
    let config = RenderConfig::default();

    let png = render_to_png_bytes(data, &config).expect("Failed to render PNG");

    // 2. Decode it using our decoder
    let decoded = decode_image_bytes(&png).expect("Failed to decode QR code");

    // 3. Assert content matches
    assert_eq!(decoded.content, data);
}

#[test]
fn test_decode_round_trip_high_ec() {
    let data = "round trip with colors";
    let config = RenderConfig {
        size: 300,
        quiet_zone: 4,
        ec_level: cqr::cli::ErrorCorrectionLevel::H,
        ..RenderConfig::default()
    };
    let png = render_to_png_bytes(data, &config).expect("Failed to render PNG");
    let decoded = decode_image_bytes(&png).expect("Failed to decode QR code");
    assert_eq!(decoded.content, data);
}

#[test]
fn test_decode_rejects_garbage_bytes() {
    let garbage: Vec<u8> = vec![1, 2, 3, 4, 5, 6, 7, 8];
    let err = decode_image_bytes(&garbage).unwrap_err();
    assert!(matches!(err, cqr::error::QrError::ImageError(_)));
}

#[test]
fn test_decode_image_without_qr() {
    // A valid image that holds no QR code: a blank white canvas.
    let white = make_white_png();
    let err = decode_image_bytes(&white).unwrap_err();
    assert!(matches!(err, cqr::error::QrError::DecodeError(_)));
}

fn make_white_png() -> Vec<u8> {
    let img = image::RgbaImage::from_pixel(64, 64, image::Rgba([255, 255, 255, 255]));
    let mut out: Vec<u8> = Vec::new();
    let enc = image::codecs::png::PngEncoder::new(&mut out);
    image::ImageEncoder::write_image(enc, img.as_raw(), 64, 64, image::ExtendedColorType::Rgba8)
        .expect("encode white png");
    out
}
