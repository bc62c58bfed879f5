use base64::Engine;
use cqr::error::QrError;
use cqr::renderer::{
    plan, render_to_base64, render_to_png_bytes, render_to_svg, render_to_terminal, Color,
    RenderConfig,
};
use cqr::utils::{escape_special_chars, urlencoding_form, urlencoding_simple};

#[test]
fn test_color_parse_three_and_six_digits() {
    let c = Color::from_hex("#FFF").expect("parse #FFF");
    assert_eq!((c.r, c.g, c.b), (255, 255, 255));

    let c = Color::from_hex("#000000").expect("parse #000000");
    assert_eq!((c.r, c.g, c.b), (0, 0, 0));

    let c = Color::from_hex("#1a2B3c").expect("parse mixed case");
    assert_eq!((c.r, c.g, c.b), (0x1a, 0x2b, 0x3c));

    let c = Color::from_hex("4d5e6f").expect("parse without hash");
    assert_eq!((c.r, c.g, c.b), (0x4d, 0x5e, 0x6f));

    let c = Color::from_hex("#a5f").expect("parse #a5f");
    assert_eq!((c.r, c.g, c.b), (0xaa, 0x55, 0xff));
}

#[test]
fn test_color_parse_rejects_bad_text() {
    let err = Color::from_hex("ab").unwrap_err();
    assert!(matches!(err, QrError::InvalidColor(t) if t == "ab"));

    let err = Color::from_hex("#GGG").unwrap_err();
    assert!(matches!(err, QrError::InvalidColor(t) if t == "GGG"));

    let err = Color::from_hex("#12345").unwrap_err();
    assert!(matches!(err, QrError::InvalidColor(_)));

    let err = Color::from_hex("").unwrap_err();
    assert!(matches!(err, QrError::InvalidColor(t) if t.is_empty()));
}

#[test]
fn test_color_hex_round_trip() {
    let c = Color { r: 171, g: 5, b: 240 };
    let text = c.to_hex_string();
    assert_eq!(text, "#ab05f0");
    let back = Color::from_hex(&text).expect("round trip");
    assert_eq!((back.r, back.g, back.b), (171, 5, 240));
}

#[test]
fn test_plan_exact_fields() {
    let layout = plan(21, 2, 512).expect("plan 21/2/512");
    assert_eq!(layout.total_modules, 25);
    assert_eq!(layout.module_size, 20);
    assert_eq!(layout.actual_size, 500);
    assert_eq!(layout.quiet_offset, 40);
    assert!(layout.actual_size <= 512);
    assert_eq!(layout.actual_size % layout.module_size, 0);
}

#[test]
fn test_plan_rejects_too_small_canvas() {
    // 25 modules and a quiet zone of 2 need at least 29 pixels.
    let err = plan(25, 2, 10).unwrap_err();
    assert!(matches!(err, QrError::InvalidConfiguration(_)));
}

#[test]
fn test_svg_deterministic() {
    let config = RenderConfig {
        gradient_color: Some(Color { r: 0, g: 128, b: 255 }),
        ..RenderConfig::default()
    };
    let first = render_to_svg("determinism", &config).expect("first render");
    let second = render_to_svg("determinism", &config).expect("second render");
    assert_eq!(first, second);
}

#[test]
fn test_svg_gradient_definition() {
    let config = RenderConfig {
        gradient_color: Some(Color { r: 255, g: 0, b: 128 }),
        ..RenderConfig::default()
    };
    let svg = render_to_svg("gradient", &config).expect("render");
    assert!(svg.contains("<linearGradient id=\"grad\""));
    assert!(svg.contains("fill=\"url(#grad)\""));
    assert!(svg.contains("stop-color:#000000"));
    assert!(svg.contains("stop-color:#ff0080"));
    assert!(svg.ends_with("</svg>"));
}

#[test]
fn test_svg_too_small_size_fails() {
    let config = RenderConfig {
        size: 10,
        ..RenderConfig::default()
    };
    let err = render_to_svg("tiny", &config).unwrap_err();
    assert!(matches!(err, QrError::InvalidConfiguration(_)));
}

#[test]
fn test_data_uri_payload_is_png() {
    let config = RenderConfig {
        size: 256,
        ..RenderConfig::default()
    };
    let uri = render_to_base64("Hello Base64", &config).expect("render data uri");
    let prefix = "data:image/png;base64,";
    assert!(uri.starts_with(prefix));
    let bytes = base64::engine::general_purpose::STANDARD
        .decode(&uri[prefix.len()..])
        .expect("valid base64 payload");
    // PNG magic signature
    assert_eq!(&bytes[0..8], &[0x89, 0x50, 0x4e, 0x47, 0x0d, 0x0a, 0x1a, 0x0a]);
}

#[test]
fn test_png_bytes_decode_to_expected_canvas() {
    let config = RenderConfig {
        size: 300,
        quiet_zone: 1,
        ..RenderConfig::default()
    };
    let png = render_to_png_bytes("canvas size", &config).expect("render png");
    let img = image::load_from_memory(&png).expect("png decodes");
    // The canvas is square and no larger than the desired size.
    assert_eq!(img.width(), img.height());
    assert!(img.width() <= 300);
    // The canvas side is an exact multiple of the total module count.
    let rgba = img.to_rgba8();
    let corner = rgba.get_pixel(0, 0);
    // The corner lies in the quiet zone: background white.
    assert_eq!(corner.0, [255, 255, 255, 255]);
}

#[test]
fn test_svg_header_uses_planned_size() {
    // "Hello SVG" fits version 1 at level M: 21 modules, plus a quiet zone
    // of 2 on each side, gives 25 total; 512 / 25 = 20 pixels per module and
    // a 500-pixel canvas.
    let svg = render_to_svg("Hello SVG", &RenderConfig::default()).expect("render");
    assert!(svg.contains("viewBox=\"0 0 500 500\" width=\"500\" height=\"500\""));
    assert!(svg.contains("width=\"20\" height=\"20\""));
}

#[test]
fn test_gradient_start_pixel_is_foreground() {
    // Without a quiet zone the top-left pixel lies in the finder pattern,
    // which is dark; at (0, 0) the gradient fraction is zero, so the drawn
    // color is exactly the foreground.
    let config = RenderConfig {
        quiet_zone: 0,
        fg_color: Color { r: 10, g: 20, b: 30 },
        gradient_color: Some(Color { r: 200, g: 100, b: 50 }),
        ..RenderConfig::default()
    };
    let png = render_to_png_bytes("gradient origin", &config).expect("render png");
    let img = image::load_from_memory(&png).expect("png decodes").to_rgba8();
    assert_eq!(img.get_pixel(0, 0).0, [10, 20, 30, 255]);
}

#[test]
fn test_plan_largest_canvas() {
    let layout = plan(177, 0, u32::MAX).expect("plan at the largest size");
    assert_eq!(layout.total_modules, 177);
    assert_eq!(layout.module_size, u32::MAX / 177);
    assert_eq!(layout.actual_size, (u32::MAX / 177) * 177);
}

#[test]
fn test_payload_too_large_is_rejected() {
    let huge = "a".repeat(8000);
    let err = render_to_svg(&huge, &RenderConfig::default()).unwrap_err();
    assert!(matches!(err, QrError::DataTooLarge));
}

#[test]
fn test_terminal_quiet_zone_toggle() {
    let with_quiet = render_to_terminal("terminal", &RenderConfig::default()).expect("render");
    let config_no_quiet = RenderConfig {
        quiet_zone: 0,
        ..RenderConfig::default()
    };
    let without_quiet = render_to_terminal("terminal", &config_no_quiet).expect("render");
    let with_lines = with_quiet.lines().count();
    let without_lines = without_quiet.lines().count();
    // The quiet zone adds a fixed 4-cell border: 8 more rows, two per line.
    assert_eq!(with_lines, without_lines + 4);
    // Inverted polarity: the quiet zone renders as full blocks, so the first
    // line of the bordered output is entirely full-block glyphs.
    let first = with_quiet.lines().next().expect("first line");
    assert!(first.chars().all(|c| c == '\u{2588}'));
}

#[test]
fn test_logo_overlay_embeds_image_in_svg() {
    let logo = make_logo_png();
    let config = RenderConfig {
        logo: Some(logo),
        ec_level: cqr::cli::ErrorCorrectionLevel::H,
        ..RenderConfig::default()
    };
    let svg = render_to_svg("logo test", &config).expect("render with logo");
    assert!(svg.contains("<image x=\""));
    assert!(svg.contains("href=\"data:image/png;base64,"));
}

#[test]
fn test_logo_overlay_in_png() {
    let logo = make_logo_png();
    let config = RenderConfig {
        logo: Some(logo),
        ec_level: cqr::cli::ErrorCorrectionLevel::H,
        ..RenderConfig::default()
    };
    let png = render_to_png_bytes("logo test", &config).expect("render with logo");
    let img = image::load_from_memory(&png).expect("png decodes").to_rgba8();
    // The center pixel lies under the opaque red logo.
    let center = img.get_pixel(img.width() / 2, img.height() / 2);
    assert_eq!(center.0, [255, 0, 0, 255]);
}

#[test]
fn test_invalid_logo_bytes_fail() {
    let config = RenderConfig {
        logo: Some(vec![0, 1, 2, 3]),
        ..RenderConfig::default()
    };
    let err = render_to_png_bytes("bad logo", &config).unwrap_err();
    assert!(matches!(err, QrError::ImageError(_)));
}

#[test]
fn test_escape_special_chars_exact() {
    assert_eq!(escape_special_chars("a;b,c:d\"e\\f"), "a\\;b\\,c\\:d\\\"e\\\\f");
    assert_eq!(escape_special_chars("plain"), "plain");
}

#[test]
fn test_urlencoding_exact() {
    assert_eq!(urlencoding_simple("a b&c=d?e#f"), "a%20b%26c%3Dd%3Fe%23f");
    assert_eq!(urlencoding_simple("A-z_0.9~"), "A-z_0.9~");
    assert_eq!(urlencoding_simple("\n\r"), "%0A%0D");
    assert_eq!(urlencoding_simple("é"), "%E9");
    assert_eq!(urlencoding_simple("€"), "%20AC");
}

#[test]
fn test_urlencoding_form_exact() {
    assert_eq!(urlencoding_form("a b&c d"), "a+b%26c+d");
    assert_eq!(urlencoding_form("plain-text_0.9~"), "plain-text_0.9~");
}

fn make_logo_png() -> Vec<u8> {
    let img = image::RgbaImage::from_pixel(32, 32, image::Rgba([255, 0, 0, 255]));
    let mut out: Vec<u8> = Vec::new();
    let enc = image::codecs::png::PngEncoder::new(&mut out);
    image::ImageEncoder::write_image(enc, img.as_raw(), 32, 32, image::ExtendedColorType::Rgba8)
        .expect("encode logo png");
    out
}
